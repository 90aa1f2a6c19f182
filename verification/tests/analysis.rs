use trace::analyzer::analyze;
use trace::analyzer::Analyzer;
use trace::messages::Message;

fn gp(blkno: u32) -> Message {
    Message::GetPage { blkno }
}

#[test]
fn empty_sequence_reports_zero() {
    let msgs: Vec<Message> = Vec::new();
    let r = analyze(&msgs);
    assert_eq!(r.total, 0);
    assert_eq!(r.other, 0);
    assert!(r.significant.is_empty());
}

#[test]
fn first_delta_is_measured_from_zero() {
    // Addresses 5, 6, 7, 8: the cursor starts at 0, so the first delta is 5,
    // followed by three deltas of 1.
    let msgs = vec![gp(5), gp(6), gp(7), gp(8)];
    let mut a = Analyzer::new();
    for m in &msgs {
        a.feed(m);
    }
    assert_eq!(a.histogram(), vec![(5, 1), (1, 3)]);
    let r = a.report();
    assert_eq!(r.total, 4);
    // Both deltas are rare, so both fall into the "other" bucket.
    assert_eq!(r.other, 2);
    assert!(r.significant.is_empty());
}

#[test]
fn threshold_separates_significant_from_other() {
    // 301 messages with delta 1, then one with delta 999.
    let mut msgs: Vec<Message> = Vec::new();
    for b in 1..=301u32 {
        msgs.push(gp(b));
    }
    msgs.push(gp(301 + 999));
    let r = analyze(&msgs);
    assert_eq!(r.total, 302);
    assert_eq!(r.significant, vec![(1, 301)]);
    assert_eq!(r.other, 1);
}

#[test]
fn exactly_300_occurrences_is_not_significant() {
    let mut msgs: Vec<Message> = Vec::new();
    for b in 1..=300u32 {
        msgs.push(gp(b));
    }
    let r = analyze(&msgs);
    assert_eq!(r.total, 300);
    assert!(r.significant.is_empty());
    assert_eq!(r.other, 1);
}

#[test]
fn non_getpage_messages_do_not_affect_analysis() {
    let with_noise = vec![
        Message::Exists,
        gp(5),
        Message::Nblocks,
        Message::DbSize,
        gp(6),
        Message::Exists,
        gp(7),
        Message::DbSize,
        gp(8),
        Message::Nblocks,
    ];
    let only_getpage = vec![gp(5), gp(6), gp(7), gp(8)];

    let mut a = Analyzer::new();
    for m in &with_noise {
        a.feed(m);
    }
    let mut b = Analyzer::new();
    for m in &only_getpage {
        b.feed(m);
    }
    assert_eq!(a.histogram(), b.histogram());
    let ra = a.report();
    let rb = b.report();
    assert_eq!(ra.total, rb.total);
    assert_eq!(ra.other, rb.other);
    assert_eq!(ra.significant, rb.significant);
}

#[test]
fn only_non_getpage_is_like_empty() {
    let msgs = vec![Message::Exists, Message::Nblocks, Message::DbSize];
    let r = analyze(&msgs);
    assert_eq!(r.total, 0);
    assert_eq!(r.other, 0);
    assert!(r.significant.is_empty());
}

#[test]
fn negative_deltas_are_counted() {
    // A backwards step: 10 then 3 gives deltas 10 and -7.
    let msgs = vec![gp(10), gp(3)];
    let mut a = Analyzer::new();
    for m in &msgs {
        a.feed(m);
    }
    assert_eq!(a.histogram(), vec![(10, 1), (-7, 1)]);
    let r = a.report();
    assert_eq!(r.total, 2);
    assert_eq!(r.other, 2);
}

#[test]
fn repeated_address_gives_delta_zero() {
    let msgs = vec![gp(4), gp(4), gp(4)];
    let mut a = Analyzer::new();
    for m in &msgs {
        a.feed(m);
    }
    assert_eq!(a.histogram(), vec![(4, 1), (0, 2)]);
}

#[test]
fn streaming_and_batch_agree() {
    let msgs = vec![gp(1), Message::Exists, gp(2), gp(100)];
    let mut a = Analyzer::new();
    for m in &msgs {
        a.feed(m);
    }
    let ra = a.report();
    let rb = analyze(&msgs);
    assert_eq!(ra.total, rb.total);
    assert_eq!(ra.other, rb.other);
    assert_eq!(ra.significant, rb.significant);
}
