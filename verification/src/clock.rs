//! Text forms of a UTC clock reading.

use vstd::prelude::*;
use crate::text::{append, decimal, decimal_string, push_char, zero_padded, zero_padded_string};

verus! {

/// A UTC clock reading, as the platform's clock gives it.
pub struct UtcTime {
    pub year: u64,
    pub month: u64,
    pub day: u64,
    pub hour: u64,
    pub minute: u64,
    pub second: u64,
}

/// `MM-DDTHH:MM:SSZ` with two-digit fields: the part after the year.
pub open spec fn iso_tail(t: UtcTime) -> Seq<char> {
    "-"@ + zero_padded(t.month as nat, 2) + "-"@ + zero_padded(t.day as nat, 2) + "T"@
        + zero_padded(t.hour as nat, 2) + ":"@ + zero_padded(t.minute as nat, 2) + ":"@
        + zero_padded(t.second as nat, 2) + "Z"@
}

/// `YYYY-MM-DDTHH:MM:SSZ`, the year as it is.
pub open spec fn iso_time(t: UtcTime) -> Seq<char> {
    decimal(t.year as nat) + iso_tail(t)
}

/// `YYYY-MM-DDTHH:MM:SSZ`, the year padded to four digits.
pub open spec fn iso_time_padded(t: UtcTime) -> Seq<char> {
    zero_padded(t.year as nat, 4) + iso_tail(t)
}

/// `YYMMDDHHMMSS`: two-digit year (year mod 100) and two-digit fields.
pub open spec fn compact_stamp(t: UtcTime) -> Seq<char> {
    zero_padded((t.year % 100) as nat, 2) + zero_padded(t.month as nat, 2) + zero_padded(
        t.day as nat,
        2,
    ) + zero_padded(t.hour as nat, 2) + zero_padded(t.minute as nat, 2) + zero_padded(
        t.second as nat,
        2,
    )
}

fn push_tail(s: &mut String, t: &UtcTime)
    ensures
        final(s)@ == old(s)@ + iso_tail(*t),
{
    append(s, "-");
    append(s, zero_padded_string(t.month, 2).as_str());
    append(s, "-");
    append(s, zero_padded_string(t.day, 2).as_str());
    append(s, "T");
    append(s, zero_padded_string(t.hour, 2).as_str());
    append(s, ":");
    append(s, zero_padded_string(t.minute, 2).as_str());
    append(s, ":");
    append(s, zero_padded_string(t.second, 2).as_str());
    append(s, "Z");
    assert(final(s)@ =~= old(s)@ + iso_tail(*t));
}

/// The clock reading as `{year}-{MM}-{DD}T{hh}:{mm}:{ss}Z`.
pub fn format_iso(t: &UtcTime) -> (r: String)
    ensures
        r@ == iso_time(*t),
{
    let mut s = decimal_string(t.year);
    push_tail(&mut s, t);
    s
}

/// The clock reading as `{year:04}-{MM}-{DD}T{hh}:{mm}:{ss}Z`.
pub fn format_iso_padded(t: &UtcTime) -> (r: String)
    ensures
        r@ == iso_time_padded(*t),
{
    let mut s = zero_padded_string(t.year, 4);
    push_tail(&mut s, t);
    s
}

/// The clock reading as `YYMMDDhhmmss`.
pub fn format_compact(t: &UtcTime) -> (r: String)
    ensures
        r@ == compact_stamp(*t),
{
    let mut s = zero_padded_string(t.year % 100, 2);
    append(&mut s, zero_padded_string(t.month, 2).as_str());
    append(&mut s, zero_padded_string(t.day, 2).as_str());
    append(&mut s, zero_padded_string(t.hour, 2).as_str());
    append(&mut s, zero_padded_string(t.minute, 2).as_str());
    append(&mut s, zero_padded_string(t.second, 2).as_str());
    assert(s@ =~= compact_stamp(*t));
    s
}

// ───────────────────────── short ids ─────────────────────────

/// A reading a clock can give: months 1..=12, days 1..=31, hours below 24,
/// minutes and seconds below 60.
pub open spec fn valid_time(t: UtcTime) -> bool {
    &&& 1 <= t.month <= 12
    &&& 1 <= t.day <= 31
    &&& t.hour < 24
    &&& t.minute < 60
    &&& t.second < 60
}

/// The reading as one number that grows with time (within a century):
/// year of the century, month, day, hour, minute and second in mixed radix.
pub open spec fn clock_tick(t: UtcTime) -> nat {
    ((((((t.year % 100) * 12 + t.month) * 31 + t.day) * 24 + t.hour) * 60 + t.minute) * 60 + t.second) as nat
}

/// The value behind a short id: the clock's tick plus the counter, in 32 bits.
pub open spec fn short_id_value(t: UtcTime, counter: u32) -> nat {
    ((clock_tick(t) + counter) % 0x1_0000_0000) as nat
}

/// The lowercase hexadecimal digit for `d < 16`.
pub open spec fn hex_digit(d: nat) -> char {
    if d < 10 { crate::text::digit_char(d) }
    else if d == 10 { 'a' }
    else if d == 11 { 'b' }
    else if d == 12 { 'c' }
    else if d == 13 { 'd' }
    else if d == 14 { 'e' }
    else { 'f' }
}

/// The last `w` hexadecimal digits of `v`, zero-padded.
pub open spec fn hex_padded(v: nat, w: nat) -> Seq<char>
    decreases w,
{
    if w == 0 {
        Seq::empty()
    } else {
        hex_padded(v / 16, (w - 1) as nat).push(hex_digit(v % 16))
    }
}

/// `16^w`.
pub open spec fn pow16(w: nat) -> nat
    decreases w,
{
    if w == 0 { 1 } else { 16 * pow16((w - 1) as nat) }
}

/// A short game id: eight lowercase hexadecimal digits made from the clock
/// reading and a counter.
pub open spec fn short_id(t: UtcTime, counter: u32) -> Seq<char> {
    hex_padded(short_id_value(t, counter), 8)
}

/// A lowercase hexadecimal digit.
pub open spec fn is_hex_digit(c: char) -> bool {
    ('0' <= c && c <= '9') || ('a' <= c && c <= 'f')
}

pub(crate) fn hex_digit_of(d: u64) -> (c: char)
    requires
        d < 16,
    ensures
        c == hex_digit(d as nat),
        is_hex_digit(c),
{
    if d == 0 { '0' }
    else if d == 1 { '1' }
    else if d == 2 { '2' }
    else if d == 3 { '3' }
    else if d == 4 { '4' }
    else if d == 5 { '5' }
    else if d == 6 { '6' }
    else if d == 7 { '7' }
    else if d == 8 { '8' }
    else if d == 9 { '9' }
    else if d == 10 { 'a' }
    else if d == 11 { 'b' }
    else if d == 12 { 'c' }
    else if d == 13 { 'd' }
    else if d == 14 { 'e' }
    else { 'f' }
}

fn hex_padded_string(v: u64, w: usize) -> (r: String)
    ensures
        r@ == hex_padded(v as nat, w as nat),
        r@.len() == w,
        forall|i: int| 0 <= i < r@.len() ==> is_hex_digit(#[trigger] r@[i]),
    decreases w,
{
    if w == 0 {
        String::new()
    } else {
        let mut s = hex_padded_string(v / 16, w - 1);
        let c = hex_digit_of(v % 16);
        push_char(&mut s, c);
        s
    }
}

/// A short game id from the clock reading and a counter (see `short_id`):
/// eight lowercase hexadecimal digits.
pub fn format_short_id(t: &UtcTime, counter: u32) -> (r: String)
    ensures
        r@ == short_id(*t, counter),
        r@.len() == 8,
        forall|i: int| 0 <= i < r@.len() ==> is_hex_digit(#[trigger] r@[i]),
{
    let yy = (t.year % 100) as u128;
    let x1: u128 = yy * 12 + t.month as u128;
    let x2: u128 = x1 * 31 + t.day as u128;
    let x3: u128 = x2 * 24 + t.hour as u128;
    let x4: u128 = x3 * 60 + t.minute as u128;
    let tick: u128 = x4 * 60 + t.second as u128;
    let v = ((tick + counter as u128) % 0x1_0000_0000u128) as u64;
    hex_padded_string(v, 8)
}

// ───────────────────────── laws ─────────────────────────

/// A valid reading's tick fits in 32 bits.
pub proof fn lemma_tick_fits(t: UtcTime)
    requires
        valid_time(t),
    ensures
        clock_tick(t) < 0x1_0000_0000,
{
}

/// Within a century, a later reading has a larger tick.
pub proof fn lemma_tick_grows(a: UtcTime, b: UtcTime)
    requires
        valid_time(a),
        valid_time(b),
        a.year / 100 == b.year / 100,
        (a.year, a.month, a.day, a.hour, a.minute, a.second) != (b.year, b.month, b.day, b.hour, b.minute, b.second),
        a.year < b.year || (a.year == b.year && (a.month < b.month || (a.month == b.month && (a.day < b.day
            || (a.day == b.day && (a.hour < b.hour || (a.hour == b.hour && (a.minute < b.minute || (a.minute
            == b.minute && a.second < b.second))))))))),
    ensures
        clock_tick(a) < clock_tick(b),
{
    assert(a.year % 100 <= b.year % 100) by (nonlinear_arith)
        requires a.year <= b.year, a.year / 100 == b.year / 100;
}

proof fn lemma_hex_padded_injective(a: nat, b: nat, w: nat)
    requires
        a < pow16(w),
        b < pow16(w),
        hex_padded(a, w) == hex_padded(b, w),
    ensures
        a == b,
    decreases w,
{
    if w > 0 {
        let ha = hex_padded(a, w);
        assert(ha.last() == hex_digit(a % 16));
        assert(hex_padded(b, w).last() == hex_digit(b % 16));
        assert(a % 16 == b % 16);
        assert(ha.drop_last() =~= hex_padded(a / 16, (w - 1) as nat));
        assert(hex_padded(b, w).drop_last() =~= hex_padded(b / 16, (w - 1) as nat));
        let p = pow16((w - 1) as nat);
        assert(a / 16 < p && b / 16 < p) by (nonlinear_arith)
            requires a < 16 * p, b < 16 * p;
        lemma_hex_padded_injective(a / 16, b / 16, (w - 1) as nat);
    }
}

/// Ids made one after the other differ: with the clock not going back and the
/// counter moving on (and no wrap past 32 bits), the second id is another.
pub proof fn lemma_short_ids_differ(t1: UtcTime, c1: u32, t2: UtcTime, c2: u32)
    requires
        valid_time(t1),
        valid_time(t2),
        clock_tick(t1) <= clock_tick(t2),
        c1 < c2,
        clock_tick(t2) + c2 < 0x1_0000_0000,
    ensures
        short_id(t1, c1) != short_id(t2, c2),
{
    assert(pow16(8) == 0x1_0000_0000) by {
        reveal_with_fuel(pow16, 9);
    }
    let v1 = short_id_value(t1, c1);
    let v2 = short_id_value(t2, c2);
    assert(v1 == clock_tick(t1) + c1);
    assert(v2 == clock_tick(t2) + c2);
    if short_id(t1, c1) == short_id(t2, c2) {
        lemma_hex_padded_injective(v1, v2, 8);
    }
}

} // verus!
