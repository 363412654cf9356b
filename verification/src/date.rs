//! Calendar dates as plain values, with the civil-to-epoch day count.
//!
//! A `Date` carries year, month and day; `epoch_seconds_of` is the number of
//! seconds from the Unix epoch to midnight UTC of that date, computed from
//! the standard civil-calendar day-count formula.

use vstd::prelude::*;

use crate::num::char_of_digit;
use crate::text::push_char;

verus! {

#[derive(Clone, Copy, Debug, PartialEq, Eq, Structural)]
pub struct Date {
    pub year: u16,
    pub month: u8,
    pub day: u8,
}

pub open spec fn valid_date(d: Date) -> bool {
    &&& 1 <= d.year <= 9999
    &&& 1 <= d.month <= 12
    &&& 1 <= d.day <= 31
}

/// Days from 1970-01-01 to the given civil date (negative for earlier days),
/// by the era-based formula over the proleptic Gregorian calendar.
pub open spec fn days_from_epoch(y: int, m: int, d: int) -> int {
    let yy = if m <= 2 {
        y - 1
    } else {
        y
    };
    let era = yy / 400;
    let yoe = yy - era * 400;
    let mp = if m > 2 {
        m - 3
    } else {
        m + 9
    };
    let doy = (153 * mp + 2) / 5 + d - 1;
    let doe = yoe * 365 + yoe / 4 - yoe / 100 + doy;
    era * 146097 + doe - 719468
}

pub open spec fn epoch_seconds_of(d: Date) -> int {
    days_from_epoch(d.year as int, d.month as int, d.day as int) * 86400
}

/// The epoch seconds of any valid date stay within twelve decimal digits.
pub proof fn lemma_epoch_seconds_bounds(d: Date)
    requires
        valid_date(d),
    ensures
        -62200000000 <= epoch_seconds_of(d) <= 253500000000,
{
    let y = d.year as int;
    let m = d.month as int;
    let yy = if m <= 2 {
        y - 1
    } else {
        y
    };
    let era = yy / 400;
    assert(0 <= era <= 24);
    assert(0 <= yy - era * 400 < 400) by {
        vstd::arithmetic::div_mod::lemma_fundamental_div_mod(yy, 400);
        assert(yy % 400 == yy - era * 400);
    }
}

/// Seconds from the Unix epoch to midnight UTC of `d`.
pub fn epoch_seconds(d: Date) -> (r: i64)
    requires
        valid_date(d),
    ensures
        r == epoch_seconds_of(d),
        -62200000000 <= r <= 253500000000,
{
    let y: u64 = d.year as u64;
    let m: u64 = d.month as u64;
    let day: u64 = d.day as u64;
    let yy: u64 = if m <= 2 {
        y - 1
    } else {
        y
    };
    let era: u64 = yy / 400;
    let yoe: u64 = yy - era * 400;
    let mp: u64 = if m > 2 {
        m - 3
    } else {
        m + 9
    };
    let doy: u64 = (153 * mp + 2) / 5 + day - 1;
    let doe: u64 = yoe * 365 + yoe / 4 - yoe / 100 + doy;
    let days: i64 = (era * 146097 + doe) as i64 - 719468;
    assert(days == days_from_epoch(y as int, m as int, day as int));
    days * 86400
}

/// The eight characters `YYYYMMDD`, zero padded.
pub open spec fn pad2(n: nat) -> Seq<char> {
    seq![char_of_digit(n / 10), char_of_digit(n % 10)]
}

pub open spec fn pad4(n: nat) -> Seq<char> {
    pad2(n / 100) + pad2(n % 100)
}

pub open spec fn yyyymmdd(d: Date) -> Seq<char> {
    pad4(d.year as nat) + pad2(d.month as nat) + pad2(d.day as nat)
}

fn push_pad2(s: &mut String, n: u64)
    requires
        n < 100,
    ensures
        final(s)@ == old(s)@ + pad2(n as nat),
{
    push_char(s, crate::num::digit_char(n / 10));
    push_char(s, crate::num::digit_char(n % 10));
    assert(s@ =~= old(s)@ + pad2(n as nat));
}

/// Renders `d` as `YYYYMMDD`, the date code used in output file names.
pub fn date_code(s: &mut String, d: Date)
    requires
        valid_date(d),
    ensures
        final(s)@ == old(s)@ + yyyymmdd(d),
{
    let y: u64 = d.year as u64;
    push_pad2(s, y / 100);
    push_pad2(s, y % 100);
    push_pad2(s, d.month as u64);
    push_pad2(s, d.day as u64);
    assert(s@ =~= old(s)@ + yyyymmdd(d));
}

} // verus!
