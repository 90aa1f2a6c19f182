//! Delta-histogram analysis of a decoded message sequence.
//!
//! The analyzer consumes the messages of one trace in decode order.  For
//! every `GetPage` it computes the signed difference between the requested
//! block address and the previously requested one (the cursor starts at
//! zero, so the first delta is the first address itself), and counts how
//! often each delta occurs.  The report keeps the deltas seen more than
//! [`SIGNIFICANT_THRESHOLD`] times and collapses the rest into a single
//! count of distinct rare deltas.

use vstd::prelude::*;
use crate::messages::Message;
use crate::messages::is_get_page;

verus! {

/// Occurrence counts strictly above this threshold make a delta significant.
pub const SIGNIFICANT_THRESHOLD: u64 = 300;

/// Abstract analyzer state: the running GetPage total, the previous block
/// address cursor, and the histogram as a delta/count sequence in
/// first-seen order.
#[verifier::ext_equal]
pub ghost struct Stats {
    pub total: nat,
    pub prev: int,
    pub hist: Seq<(int, nat)>,
}

pub open spec fn hist_has(h: Seq<(int, nat)>, d: int) -> bool {
    exists|i: int| 0 <= i < h.len() && h[i].0 == d
}

pub open spec fn hist_key_index(h: Seq<(int, nat)>, d: int) -> int {
    choose|i: int| 0 <= i < h.len() && h[i].0 == d
}

/// No delta occurs twice as a key of the histogram.
pub open spec fn distinct_keys(h: Seq<(int, nat)>) -> bool {
    forall|i: int, j: int| 0 <= i < j < h.len() ==> h[i].0 != h[j].0
}

pub open spec fn counts_bounded(h: Seq<(int, nat)>, t: nat) -> bool {
    forall|i: int| 0 <= i < h.len() ==> (#[trigger] h[i]).1 <= t
}

/// Increment the count recorded for delta `d`, appending a fresh entry with
/// count 1 when `d` has not been seen before.
pub open spec fn bump(h: Seq<(int, nat)>, d: int) -> Seq<(int, nat)> {
    if hist_has(h, d) {
        let i = hist_key_index(h, d);
        h.update(i, (d, h[i].1 + 1))
    } else {
        h.push((d, 1))
    }
}

pub open spec fn init_stats() -> Stats {
    Stats { total: 0, prev: 0, hist: Seq::empty() }
}

/// One message's effect on the analyzer state: only `GetPage` changes it.
pub open spec fn step_stats(s: Stats, m: Message) -> Stats {
    match m {
        Message::GetPage { blkno } => Stats {
            total: s.total + 1,
            prev: blkno as int,
            hist: bump(s.hist, blkno - s.prev),
        },
        _ => s,
    }
}

/// The analyzer state after consuming a whole message sequence in order.
pub open spec fn stats_of(msgs: Seq<Message>) -> Stats
    decreases msgs.len(),
{
    if msgs.len() == 0 {
        init_stats()
    } else {
        step_stats(stats_of(msgs.drop_last()), msgs.last())
    }
}

/// At most one GetPage total is added per message consumed.
pub proof fn lemma_total_le_len(msgs: Seq<Message>)
    ensures
        stats_of(msgs).total <= msgs.len(),
    decreases msgs.len(),
{
    if msgs.len() > 0 {
        lemma_total_le_len(msgs.drop_last());
    }
}

/// The messages of a sequence that are GetPage requests, in order.
pub open spec fn get_pages(msgs: Seq<Message>) -> Seq<Message> {
    msgs.filter(|m: Message| is_get_page(m))
}

/// Law: messages other than GetPage never affect the histogram, the
/// previous-address cursor, or the total; analyzing any sequence gives the
/// same state as analyzing only its GetPage messages.
pub proof fn lemma_non_getpage_irrelevant(msgs: Seq<Message>)
    ensures
        stats_of(msgs) == stats_of(get_pages(msgs)),
    decreases msgs.len(),
{
    reveal(Seq::filter);
    if msgs.len() == 0 {
    } else {
        let d = msgs.drop_last();
        let l = msgs.last();
        lemma_non_getpage_irrelevant(d);
        if is_get_page(l) {
            assert(get_pages(msgs) == get_pages(d).push(l));
            assert(get_pages(d).push(l).drop_last() =~= get_pages(d));
            assert(get_pages(d).push(l).last() == l);
            assert(stats_of(get_pages(msgs)) == step_stats(stats_of(get_pages(d)), l));
        } else {
            assert(get_pages(msgs) == get_pages(d));
            assert(step_stats(stats_of(d), l) == stats_of(d));
        }
    }
}

/// The histogram entries with significant occurrence counts, in first-seen
/// order.
pub open spec fn significant_of(h: Seq<(int, nat)>) -> Seq<(int, nat)> {
    h.filter(|p: (int, nat)| p.1 > SIGNIFICANT_THRESHOLD)
}

/// How many distinct deltas fall below the significance threshold.
pub open spec fn other_count_of(h: Seq<(int, nat)>) -> int {
    h.filter(|p: (int, nat)| p.1 <= SIGNIFICANT_THRESHOLD).len() as int
}

/// The mathematical value of an executable histogram.
pub open spec fn hist_view(h: Seq<(i64, u64)>) -> Seq<(int, nat)> {
    h.map_values(|p: (i64, u64)| (p.0 as int, p.1 as nat))
}

/// Streaming analyzer over the decoded messages of one trace.
pub struct Analyzer {
    total: u64,
    prev: u32,
    hist: Vec<(i64, u64)>,
}

/// Summary of one trace, as reported after the whole sequence is consumed.
#[derive(Debug)]
pub struct Report {
    /// Number of GetPage messages seen.
    pub total: u64,
    /// Number of distinct deltas whose count stayed at or below the
    /// significance threshold; their entries are discarded.
    pub other: usize,
    /// The significant deltas with their occurrence counts, in first-seen
    /// order.
    pub significant: Vec<(i64, u64)>,
}

impl View for Analyzer {
    type V = Stats;

    closed spec fn view(&self) -> Stats {
        Stats { total: self.total as nat, prev: self.prev as int, hist: hist_view(self.hist@) }
    }
}

impl Analyzer {
    pub open spec fn wf(self) -> bool {
        &&& distinct_keys(self@.hist)
        &&& counts_bounded(self@.hist, self@.total)
    }

    /// A fresh analyzer: nothing seen, cursor at block address zero.
    pub fn new() -> (r: Analyzer)
        ensures
            r@ == init_stats(),
            r.wf(),
    {
        let a = Analyzer { total: 0, prev: 0, hist: Vec::new() };
        proof {
            assert(hist_view(a.hist@) =~= Seq::<(int, nat)>::empty());
            assert(a@ =~= init_stats());
        }
        a
    }

    /// Consume one decoded message.
    pub fn feed(&mut self, m: &Message)
        requires
            old(self).wf(),
            old(self)@.total < u64::MAX,
        ensures
            final(self).wf(),
            final(self)@ == step_stats(old(self)@, *m),
    {
        match m {
            Message::GetPage { blkno } => {
                let b: u32 = *blkno;
                let delta: i64 = (b as i64) - (self.prev as i64);
                let ghost d: int = b - old(self)@.prev;
                let ghost oldhv = hist_view(old(self).hist@);
                assert(delta as int == d);
                self.total = self.total + 1;
                self.prev = b;
                let n = self.hist.len();
                let mut i: usize = 0;
                while i < n
                    invariant
                        self.hist@ == old(self).hist@,
                        self.total as int == old(self)@.total + 1,
                        self.prev == b,
                        n == self.hist@.len(),
                        0 <= i <= n,
                        forall|j: int| 0 <= j < i ==> oldhv[j].0 != d,
                        delta as int == d,
                        old(self).wf(),
                        old(self)@.total < u64::MAX,
                        *m == (Message::GetPage { blkno: b }),
                        d == b - old(self)@.prev,
                        oldhv == hist_view(old(self).hist@),
                    decreases n - i,
                {
                    let e = self.hist[i];
                    if e.0 == delta {
                        let c = e.1;
                        proof {
                            assert(oldhv[i as int].0 == d);
                            assert(hist_has(oldhv, d));
                            let k = hist_key_index(oldhv, d);
                            assert(0 <= k < oldhv.len() && oldhv[k].0 == d);
                            assert(distinct_keys(oldhv));
                            assert(k == i as int);
                            assert(c as nat == oldhv[i as int].1);
                            assert(c <= old(self)@.total);
                        }
                        self.hist[i] = (delta, c + 1);
                        proof {
                            assert(hist_view(self.hist@) =~= oldhv.update(
                                i as int,
                                (d, (c + 1) as nat),
                            ));
                            assert(bump(oldhv, d) == oldhv.update(i as int, (d, (c + 1) as nat)));
                            assert(self@ =~= step_stats(old(self)@, *m));
                        }
                        return;
                    }
                    i = i + 1;
                }
                proof {
                    assert(forall|j: int| 0 <= j < oldhv.len() ==> oldhv[j].0 != d);
                    assert(!hist_has(oldhv, d));
                }
                self.hist.push((delta, 1));
                proof {
                    assert(hist_view(self.hist@) =~= oldhv.push((d, 1)));
                    assert(self@ =~= step_stats(old(self)@, *m));
                }
            },
            _ => {},
        }
    }

    /// The histogram accumulated so far: delta/count pairs in first-seen
    /// order.
    pub fn histogram(&self) -> (r: Vec<(i64, u64)>)
        ensures
            hist_view(r@) == self@.hist,
    {
        let mut out: Vec<(i64, u64)> = Vec::new();
        let n = self.hist.len();
        let mut i: usize = 0;
        proof {
            assert(hist_view(out@) =~= Seq::<(int, nat)>::empty());
            assert(hist_view(self.hist@).subrange(0, 0) =~= Seq::<(int, nat)>::empty());
        }
        while i < n
            invariant
                n == self.hist@.len(),
                0 <= i <= n,
                out@.len() == i,
                hist_view(out@) == hist_view(self.hist@).subrange(0, i as int),
            decreases n - i,
        {
            let ghost out0 = out@;
            out.push(self.hist[i]);
            proof {
                let hv = hist_view(self.hist@);
                assert(hist_view(out@) =~= hist_view(out0).push(hv[i as int]));
                assert(hv.subrange(0, i + 1) =~= hv.subrange(0, i as int).push(hv[i as int]));
            }
            i = i + 1;
        }
        proof {
            assert(hist_view(self.hist@).subrange(0, n as int) =~= hist_view(self.hist@));
        }
        out
    }

    /// Produce the summary for everything fed so far: the GetPage total, the
    /// significant deltas in first-seen order, and the count of discarded
    /// rare deltas.
    pub fn report(&self) -> (r: Report)
        ensures
            r.total as nat == self@.total,
            hist_view(r.significant@) == significant_of(self@.hist),
            r.other as int == other_count_of(self@.hist),
    {
        let mut sig: Vec<(i64, u64)> = Vec::new();
        let mut other: usize = 0;
        let n = self.hist.len();
        let mut i: usize = 0;
        proof {
            reveal(Seq::filter);
            let hv = hist_view(self.hist@);
            assert(hv.subrange(0, 0) =~= Seq::<(int, nat)>::empty());
            assert(hist_view(sig@) =~= Seq::<(int, nat)>::empty());
        }
        while i < n
            invariant
                n == self.hist@.len(),
                0 <= i <= n,
                other <= i,
                hist_view(sig@) == significant_of(hist_view(self.hist@).subrange(0, i as int)),
                other as int == other_count_of(hist_view(self.hist@).subrange(0, i as int)),
            decreases n - i,
        {
            let p = self.hist[i];
            let ghost sig0 = sig@;
            proof {
                reveal(Seq::filter);
                let hv = hist_view(self.hist@);
                assert(hv.subrange(0, i + 1).drop_last() =~= hv.subrange(0, i as int));
                assert(hv.subrange(0, i + 1).last() == (p.0 as int, p.1 as nat));
            }
            if p.1 > SIGNIFICANT_THRESHOLD {
                sig.push(p);
                proof {
                    assert(hist_view(sig@) =~= hist_view(sig0).push((p.0 as int, p.1 as nat)));
                }
            } else {
                other = other + 1;
            }
            proof {
                reveal(Seq::filter);
                let hv = hist_view(self.hist@);
                assert(hist_view(sig@) == significant_of(hv.subrange(0, i + 1)));
                assert(other as int == other_count_of(hv.subrange(0, i + 1)));
            }
            i = i + 1;
        }
        proof {
            let hv = hist_view(self.hist@);
            assert(hv.subrange(0, n as int) =~= hv);
        }
        Report { total: self.total, other, significant: sig }
    }
}

/// Analyze a whole decoded message sequence: feed every message in order,
/// then report.
pub fn analyze(msgs: &Vec<Message>) -> (r: Report)
    ensures
        r.total as nat == stats_of(msgs@).total,
        hist_view(r.significant@) == significant_of(stats_of(msgs@).hist),
        r.other as int == other_count_of(stats_of(msgs@).hist),
{
    let mut a = Analyzer::new();
    let n = msgs.len();
    let mut i: usize = 0;
    proof {
        assert(msgs@.subrange(0, 0) =~= Seq::<Message>::empty());
    }
    while i < n
        invariant
            n == msgs@.len(),
            0 <= i <= n,
            a.wf(),
            a@ == stats_of(msgs@.subrange(0, i as int)),
        decreases n - i,
    {
        proof {
            lemma_total_le_len(msgs@.subrange(0, i as int));
            assert(msgs@.subrange(0, i + 1).drop_last() =~= msgs@.subrange(0, i as int));
            assert(msgs@.subrange(0, i + 1).last() == msgs@[i as int]);
        }
        a.feed(&msgs[i]);
        i = i + 1;
    }
    proof {
        assert(msgs@.subrange(0, n as int) =~= msgs@);
    }
    a.report()
}

} // verus!
