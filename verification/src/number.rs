//! Decimal numbers in text: reading an unsigned 32-bit number as
//! `str::parse::<u32>` does.

use vstd::prelude::*;
use crate::text::{chars_of, decimal, digit_char, digit_value, is_ascii_digit};

verus! {

/// The value of a run of decimal digits.
pub open spec fn digits_value(s: Seq<char>) -> nat
    decreases s.len(),
{
    if s.len() == 0 {
        0
    } else {
        digits_value(s.drop_last()) * 10 + digit_value(s.last())
    }
}

/// Every character is an ASCII digit.
pub open spec fn all_digits(s: Seq<char>) -> bool {
    forall|i: int| 0 <= i < s.len() ==> #[trigger] is_ascii_digit(s[i])
}

/// `s` without one leading '+', if it has one.
pub open spec fn unsigned_digits(s: Seq<char>) -> Seq<char> {
    if s.len() > 0 && s[0] == '+' {
        s.drop_first()
    } else {
        s
    }
}

/// What `str::parse::<u32>` gives: an optional '+' followed by at least one
/// decimal digit and nothing else, whose value fits in 32 bits.
pub open spec fn parse_u32_spec(s: Seq<char>) -> Option<u32> {
    let d = unsigned_digits(s);
    if d.len() > 0 && all_digits(d) && digits_value(d) <= u32::MAX {
        Some(digits_value(d) as u32)
    } else {
        None
    }
}

proof fn lemma_digits_value_prefix_grows(s: Seq<char>, k: int)
    requires
        0 <= k <= s.len(),
    ensures
        digits_value(s.take(k)) <= digits_value(s),
    decreases s.len() - k,
{
    if k < s.len() {
        lemma_digits_value_prefix_grows(s, k + 1);
        assert(s.take(k + 1).drop_last() =~= s.take(k));
    } else {
        assert(s.take(k) =~= s);
    }
}

fn char_digit(c: char) -> (r: Option<u64>)
    ensures
        is_ascii_digit(c) ==> r == Some(digit_value(c) as u64),
        !is_ascii_digit(c) ==> r is None,
{
    if '0' <= c && c <= '9' {
        Some((c as u32 - '0' as u32) as u64)
    } else {
        None
    }
}

/// `str::parse::<u32>`, returning `None` where it returns an error.
pub fn parse_u32(s: &str) -> (r: Option<u32>)
    ensures
        r == parse_u32_spec(s@),
{
    let cs = chars_of(s);
    let mut start: usize = 0;
    if cs.len() > 0 && cs[0] == '+' {
        start = 1;
    }
    let ghost d = unsigned_digits(s@);
    assert(d =~= cs@.skip(start as int));
    if start == cs.len() {
        return None;
    }
    let mut value: u64 = 0;
    let mut i: usize = start;
    while i < cs.len()
        invariant
            start <= i <= cs.len(),
            start < cs.len(),
            cs@ == s@,
            d == unsigned_digits(s@),
            d == cs@.skip(start as int),
            all_digits(cs@.subrange(start as int, i as int)),
            value == digits_value(cs@.subrange(start as int, i as int)),
            value <= u32::MAX,
        decreases cs.len() - i,
    {
        let dg = char_digit(cs[i]);
        assert(cs@.subrange(start as int, i + 1).drop_last() =~= cs@.subrange(start as int, i as int));
        match dg {
            None => {
                assert(d[i - start] == cs@[i as int]);
                assert(!all_digits(d));
                return None;
            },
            Some(v) => {
                let next = value * 10 + v;
                if next > 4294967295u64 {
                    proof {
                        assert(d.take(i + 1 - start) =~= cs@.subrange(start as int, i + 1));
                        lemma_digits_value_prefix_grows(d, i + 1 - start);
                    }
                    return None;
                }
                value = next;
                assert(all_digits(cs@.subrange(start as int, i + 1))) by {
                    assert forall|k: int| 0 <= k < i + 1 - start implies #[trigger] is_ascii_digit(
                        cs@.subrange(start as int, i + 1)[k],
                    ) by {
                        if k < i - start {
                            assert(cs@.subrange(start as int, i + 1)[k] == cs@.subrange(
                                start as int,
                                i as int,
                            )[k]);
                        }
                    }
                }
            },
        }
        i += 1;
    }
    assert(cs@.subrange(start as int, cs.len() as int) =~= d);
    Some(value as u32)
}

// ───────────────────────── laws ─────────────────────────

/// Decimal notation is made of digits, reads back as the number, and does
/// not begin with '+'.
pub proof fn lemma_decimal_digits(n: nat)
    ensures
        all_digits(decimal(n)),
        digits_value(decimal(n)) == n,
        decimal(n).len() > 0,
        decimal(n)[0] != '+',
    decreases n,
{
    assert(digit_value(digit_char(n % 10)) == n % 10);
    if n >= 10 {
        lemma_decimal_digits(n / 10);
        assert(n == (n / 10) * 10 + n % 10);
        let d = decimal(n);
        assert(d.drop_last() =~= decimal(n / 10));
        assert(d.last() == digit_char(n % 10));
        assert(digits_value(d) == digits_value(d.drop_last()) * 10 + digit_value(d.last()));
        assert(d[0] == decimal(n / 10)[0]);
        assert forall|i: int| 0 <= i < d.len() implies #[trigger] is_ascii_digit(d[i]) by {
            if i < d.len() - 1 {
                assert(d[i] == decimal(n / 10)[i]);
            }
        }
    } else {
        let d = decimal(n);
        assert(d.drop_last() =~= Seq::<char>::empty());
        assert(digits_value(d) == digits_value(d.drop_last()) * 10 + digit_value(d.last()));
    }
}

/// Reading back the decimal notation of a 32-bit number gives the number.
pub proof fn lemma_parse_u32_of_decimal(n: u32)
    ensures
        parse_u32_spec(decimal(n as nat)) == Some(n),
{
    lemma_decimal_digits(n as nat);
}

} // verus!
