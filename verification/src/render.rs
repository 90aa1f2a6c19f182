//! Textual rendering of decoded messages.
//!
//! The dump mode prints each decoded message on one line, in decode order,
//! with no filtering and no aggregation.  The exact text of every line is
//! pinned down by [`render_msg_chars`].

use vstd::prelude::*;
use crate::messages::Message;

verus! {

pub open spec fn digit_char(d: int) -> char {
    if d == 0 {
        '0'
    } else if d == 1 {
        '1'
    } else if d == 2 {
        '2'
    } else if d == 3 {
        '3'
    } else if d == 4 {
        '4'
    } else if d == 5 {
        '5'
    } else if d == 6 {
        '6'
    } else if d == 7 {
        '7'
    } else if d == 8 {
        '8'
    } else {
        '9'
    }
}

/// The decimal notation of a number: most significant digit first, no sign,
/// no leading zero except for the number zero itself.
pub open spec fn dec_chars(n: nat) -> Seq<char>
    decreases n,
{
    if n < 10 {
        seq![digit_char(n as int)]
    } else {
        dec_chars(n / 10).push(digit_char((n % 10) as int))
    }
}

/// The one-line text of a decoded message.
pub open spec fn render_msg_chars(m: Message) -> Seq<char> {
    match m {
        Message::Exists => "exists"@,
        Message::Nblocks => "nblocks"@,
        Message::GetPage { blkno } => "get_page blkno "@ + dec_chars(blkno as nat),
        Message::DbSize => "db_size"@,
    }
}

fn digit_str(d: u8) -> (r: &'static str)
    requires
        d < 10,
    ensures
        r@ == seq![digit_char(d as int)],
{
    proof {
        reveal_strlit("0");
        reveal_strlit("1");
        reveal_strlit("2");
        reveal_strlit("3");
        reveal_strlit("4");
        reveal_strlit("5");
        reveal_strlit("6");
        reveal_strlit("7");
        reveal_strlit("8");
        reveal_strlit("9");
    }
    if d == 0 {
        "0"
    } else if d == 1 {
        "1"
    } else if d == 2 {
        "2"
    } else if d == 3 {
        "3"
    } else if d == 4 {
        "4"
    } else if d == 5 {
        "5"
    } else if d == 6 {
        "6"
    } else if d == 7 {
        "7"
    } else if d == 8 {
        "8"
    } else {
        "9"
    }
}

/// Decimal notation of a block address.
pub fn u32_decimal(n: u32) -> (r: String)
    ensures
        r@ == dec_chars(n as nat),
    decreases n,
{
    if n < 10 {
        digit_str(n as u8).to_owned()
    } else {
        let mut s = u32_decimal(n / 10);
        s.append(digit_str((n % 10) as u8));
        proof {
            assert(dec_chars((n / 10) as nat).push(digit_char((n % 10) as int)) =~= dec_chars(
                (n / 10) as nat,
            ) + seq![digit_char((n % 10) as int)]);
            assert((n / 10) as nat == (n as nat) / 10);
            assert((n % 10) as nat == (n as nat) % 10);
        }
        s
    }
}

/// One line of dump output for one decoded message.
pub fn render_message(m: &Message) -> (r: String)
    ensures
        r@ == render_msg_chars(*m),
{
    match m {
        Message::Exists => "exists".to_owned(),
        Message::Nblocks => "nblocks".to_owned(),
        Message::GetPage { blkno } => {
            let mut s = "get_page blkno ".to_owned();
            let num = u32_decimal(*blkno);
            s.append(num.as_str());
            s
        },
        Message::DbSize => "db_size".to_owned(),
    }
}

/// Render a whole decoded sequence: exactly one line per message, in stream
/// order.
pub fn render_trace(msgs: &Vec<Message>) -> (r: Vec<String>)
    ensures
        r@.len() == msgs@.len(),
        forall|i: int| 0 <= i < msgs@.len() ==> (#[trigger] r@[i])@ == render_msg_chars(msgs@[i]),
{
    let mut out: Vec<String> = Vec::new();
    let n = msgs.len();
    let mut i: usize = 0;
    while i < n
        invariant
            n == msgs@.len(),
            0 <= i <= n,
            out@.len() == i,
            forall|j: int| 0 <= j < i ==> (#[trigger] out@[j])@ == render_msg_chars(msgs@[j]),
        decreases n - i,
    {
        let line = render_message(&msgs[i]);
        out.push(line);
        i = i + 1;
    }
    out
}

} // verus!
