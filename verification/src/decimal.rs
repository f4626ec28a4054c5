//! Decimal numerals: reading an unsigned 16-bit number from its digits and
//! writing it back.

use crate::text::chars_of;
use vstd::prelude::*;

verus! {

/// Whether `c` is one of the ten ASCII digits.
pub open spec fn is_digit(c: char) -> bool {
    0x30 <= c as u32 <= 0x39
}

/// The value of the digit `c`.
pub open spec fn digit_value(c: char) -> nat {
    (c as u32 - 0x30) as nat
}

/// The digit whose value is `d`.
pub open spec fn digit_char(d: nat) -> char
    recommends
        d < 10,
{
    (0x30 + d) as u8 as char
}

/// Whether `s` is a non-empty run of ASCII digits.
pub open spec fn is_numeral(s: Seq<char>) -> bool {
    s.len() > 0 && forall|i: int| 0 <= i < s.len() ==> is_digit(#[trigger] s[i])
}

/// The number that the digits of `s` write in base ten.
pub open spec fn numeral_value(s: Seq<char>) -> nat
    decreases s.len(),
{
    if s.len() == 0 {
        0
    } else {
        numeral_value(s.drop_last()) * 10 + digit_value(s.last())
    }
}

/// The 16-bit number that `s` writes: `None` where `s` is not a numeral or
/// its value is above 65535.
pub open spec fn u16_of(s: Seq<char>) -> Option<u16> {
    if is_numeral(s) && numeral_value(s) <= 0xFFFF {
        Some(numeral_value(s) as u16)
    } else {
        None
    }
}

/// The shortest numeral of `n`.
pub open spec fn numeral_of(n: nat) -> Seq<char>
    decreases n,
{
    if n < 10 {
        seq![digit_char(n)]
    } else {
        numeral_of(n / 10).push(digit_char(n % 10))
    }
}

/// A numeral's value is at least that of each of its prefixes.
pub proof fn lemma_prefix_value(s: Seq<char>, k: int)
    requires
        0 <= k <= s.len(),
    ensures
        numeral_value(s.take(k)) <= numeral_value(s),
    decreases s.len() - k,
{
    if k < s.len() {
        lemma_prefix_value(s, k + 1);
        assert(s.take(k + 1).drop_last() =~= s.take(k));
    } else {
        assert(s.take(k) =~= s);
    }
}

/// Reading the numeral of `n` gives `n` back.
pub proof fn lemma_numeral_round_trip(n: nat)
    ensures
        is_numeral(numeral_of(n)),
        numeral_value(numeral_of(n)) == n,
    decreases n,
{
    if n < 10 {
        let s = numeral_of(n);
        assert(numeral_value(s.drop_last()) == 0);
    } else {
        lemma_numeral_round_trip(n / 10);
        let s = numeral_of(n);
        assert(s.drop_last() =~= numeral_of(n / 10));
    }
}

/// Every 16-bit number is read back from its numeral.
pub proof fn lemma_u16_round_trip(n: u16)
    ensures
        u16_of(numeral_of(n as nat)) == Some(n),
{
    lemma_numeral_round_trip(n as nat);
}

/// Reads a 16-bit number from its decimal numeral.
pub fn parse_u16(s: &str) -> (r: Option<u16>)
    ensures
        r == u16_of(s@),
{
    let cs = chars_of(s);
    if cs.len() == 0 {
        return None;
    }
    let mut acc: u32 = 0;
    let mut i: usize = 0;
    while i < cs.len()
        invariant
            cs@ == s@,
            i <= cs@.len(),
            acc <= 0xFFFF,
            acc == numeral_value(cs@.take(i as int)),
            forall|j: int| 0 <= j < i ==> is_digit(#[trigger] cs@[j]),
        decreases cs@.len() - i,
    {
        let c: u32 = cs[i] as u32;
        if c < 0x30 || c > 0x39 {
            return None;
        }
        proof {
            assert(cs@.take(i + 1).drop_last() =~= cs@.take(i as int));
        }
        acc = acc * 10 + (c - 0x30);
        i = i + 1;
        if acc > 0xFFFF {
            proof {
                lemma_prefix_value(cs@, i as int);
            }
            return None;
        }
    }
    proof {
        assert(cs@.take(i as int) =~= cs@);
    }
    Some(acc as u16)
}

/// Appends the numeral of `n` to `out`.
pub fn push_numeral(out: &mut String, n: u16)
    ensures
        final(out)@ == old(out)@ + numeral_of(n as nat),
    decreases n,
{
    if n >= 10 {
        push_numeral(out, n / 10);
    }
    let d: u8 = (n % 10) as u8;
    out.push((0x30 + d) as char);
    proof {
        if n >= 10 {
            assert(old(out)@ + numeral_of(n as nat) =~= (old(out)@ + numeral_of((n / 10) as nat)).push(
                digit_char((n % 10) as nat),
            ));
        }
    }
}

} // verus!
