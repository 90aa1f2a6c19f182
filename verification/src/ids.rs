//! Fixed-format identifiers for trace origins.
//!
//! Tenants, timelines and connections are each addressed by a 128-bit
//! identifier whose canonical textual encoding is exactly 32 hexadecimal
//! digits.  Directory and file names are parsed with [`parse_trace_id`];
//! a name that is not such an encoding is rejected.

use vstd::prelude::*;

verus! {

/// A 128-bit identifier, parsed from its 32-hex-digit textual encoding.
#[derive(Clone, Copy, PartialEq, Eq, Structural, Debug)]
pub struct TraceId {
    pub value: u128,
}

impl View for TraceId {
    type V = int;

    open spec fn view(&self) -> int {
        self.value as int
    }
}

/// Number of hexadecimal digits in the canonical encoding of an identifier.
pub const ID_HEX_LEN: usize = 32;

pub open spec fn is_hex_digit(c: char) -> bool {
    ('0' as int <= c as int && c as int <= '9' as int) || ('a' as int <= c as int && c as int
        <= 'f' as int) || ('A' as int <= c as int && c as int <= 'F' as int)
}

pub open spec fn hex_digit_val(c: char) -> int {
    if '0' as int <= c as int && c as int <= '9' as int {
        c as int - '0' as int
    } else if 'a' as int <= c as int && c as int <= 'f' as int {
        c as int - 'a' as int + 10
    } else {
        c as int - 'A' as int + 10
    }
}

/// A character sequence is a valid identifier encoding when it consists of
/// exactly [`ID_HEX_LEN`] hexadecimal digits.
pub open spec fn valid_id_chars(s: Seq<char>) -> bool {
    &&& s.len() == ID_HEX_LEN
    &&& forall|i: int| 0 <= i < s.len() ==> is_hex_digit(#[trigger] s[i])
}

/// The number denoted by a sequence of hexadecimal digits, most significant
/// digit first.
pub open spec fn hex_value(s: Seq<char>) -> int
    decreases s.len(),
{
    if s.len() == 0 {
        0
    } else {
        16 * hex_value(s.drop_last()) + hex_digit_val(s.last())
    }
}

pub open spec fn pow16(n: nat) -> int
    decreases n,
{
    if n == 0 {
        1
    } else {
        16 * pow16((n - 1) as nat)
    }
}

proof fn lemma_pow16_pos(n: nat)
    ensures
        pow16(n) >= 1,
    decreases n,
{
    if n > 0 {
        lemma_pow16_pos((n - 1) as nat);
    }
}

proof fn lemma_pow16_mono(a: nat, b: nat)
    requires
        a <= b,
    ensures
        pow16(a) <= pow16(b),
    decreases b,
{
    if a < b {
        lemma_pow16_mono(a, (b - 1) as nat);
        lemma_pow16_pos((b - 1) as nat);
    }
}

proof fn lemma_pow16_32()
    ensures
        pow16(32) == 0x1_0000_0000_0000_0000_0000_0000_0000_0000,
{
    reveal_with_fuel(pow16, 33);
}

/// A string of hexadecimal digits denotes a number below 16^len.
proof fn lemma_hex_value_bound(s: Seq<char>)
    requires
        forall|i: int| 0 <= i < s.len() ==> is_hex_digit(#[trigger] s[i]),
    ensures
        0 <= hex_value(s) < pow16(s.len()),
    decreases s.len(),
{
    if s.len() > 0 {
        lemma_hex_value_bound(s.drop_last());
        assert(is_hex_digit(s.last()));
        assert(0 <= hex_digit_val(s.last()) < 16);
    }
}

/// The value of one character as a hexadecimal digit, or `None` when the
/// character is not a hexadecimal digit.
fn hex_val_of(c: char) -> (r: Option<u8>)
    ensures
        match r {
            Some(v) => is_hex_digit(c) && v as int == hex_digit_val(c),
            None => !is_hex_digit(c),
        },
{
    let u = c as u32;
    if 48 <= u && u <= 57 {
        Some((u - 48) as u8)
    } else if 97 <= u && u <= 102 {
        Some((u - 97 + 10) as u8)
    } else if 65 <= u && u <= 70 {
        Some((u - 65 + 10) as u8)
    } else {
        None
    }
}

/// Parse the canonical textual encoding of an identifier.
///
/// Returns `Some` exactly when `s` is 32 hexadecimal digits, and then the
/// identifier's value is the number those digits denote.
pub fn parse_trace_id(s: &str) -> (r: Option<TraceId>)
    ensures
        r is Some <==> valid_id_chars(s@),
        r is Some ==> r->Some_0@ == hex_value(s@),
{
    let len = s.unicode_len();
    if len != ID_HEX_LEN {
        return None;
    }
    let mut acc: u128 = 0;
    let mut i: usize = 0;
    while i < ID_HEX_LEN
        invariant
            len == ID_HEX_LEN,
            len as nat == s@.len(),
            0 <= i <= ID_HEX_LEN,
            forall|j: int| 0 <= j < i ==> is_hex_digit(#[trigger] s@[j]),
            acc as int == hex_value(s@.subrange(0, i as int)),
        decreases ID_HEX_LEN - i,
    {
        let c = s.get_char(i);
        match hex_val_of(c) {
            None => {
                return None;
            },
            Some(d) => {
                proof {
                    let prefix = s@.subrange(0, i as int);
                    let prefix2 = s@.subrange(0, i as int + 1);
                    assert(prefix2.drop_last() =~= prefix);
                    assert(prefix2.last() == s@[i as int]);
                    lemma_hex_value_bound(prefix2);
                    lemma_pow16_mono(prefix2.len(), 32);
                    lemma_pow16_32();
                }
                acc = acc * 16 + (d as u128);
                i = i + 1;
            },
        }
    }
    proof {
        assert(s@.subrange(0, ID_HEX_LEN as int) =~= s@);
    }
    Some(TraceId { value: acc })
}

} // verus!
