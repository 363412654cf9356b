//! Fixed-offset timestamps.
//!
//! An instant is kept as plain values: seconds since the Unix epoch, plus the
//! signed local UTC offset in seconds. Positive offsets lie east of UTC,
//! negative ones west, zero is UTC itself; the instant named stays the same,
//! the offset only fixes how its local form reads. Rendering to the standard
//! date-and-time text is delegated to the `chrono` crate behind a trusted
//! wrapper; the text it returns is named `rfc3339_of`.

use vstd::prelude::*;

use crate::text::plain_text;

verus! {

#[derive(Clone, Copy, Debug, PartialEq, Eq, Structural)]
pub struct FixedInstant {
    /// Seconds since 1970-01-01T00:00:00 UTC, of the instant itself.
    pub utc_seconds: i64,
    /// Signed local offset from UTC, in seconds; east is positive.
    pub offset_seconds: i32,
}

/// Offsets a fixed-offset timestamp can carry: strictly within one day,
/// the bound `chrono::FixedOffset` enforces.
pub open spec fn valid_offset(off: int) -> bool {
    -86400 < off < 86400
}

/// Second counts that the rendering below accepts. The bound stays well
/// inside the range `chrono` documents for `DateTime::from_timestamp`
/// (around 262,000 years either side of the common era).
pub open spec fn ts_renderable(secs: int) -> bool {
    -8000000000000 <= secs <= 8000000000000
}

pub open spec fn instant_renderable(t: FixedInstant) -> bool {
    ts_renderable(t.utc_seconds as int) && valid_offset(t.offset_seconds as int)
}

/// The RFC 3339 text of the instant `utc_seconds`, displayed at the given
/// offset, e.g. `2020-01-03T10:00:00+11:00`. The text is a function of the
/// two values alone; its exact shape is owned by `chrono`.
pub uninterp spec fn rfc3339_of(utc_seconds: int, offset_seconds: int) -> Seq<char>;

/// Relies on `chrono`: `DateTime::from_timestamp(secs, 0)` (None only outside
/// its documented range, which contains `ts_renderable`),
/// `FixedOffset::east_opt` (Some exactly on `valid_offset`),
/// `DateTime::with_timezone` and `DateTime::to_rfc3339`. With zero
/// nanoseconds the rendered text is digits and `-+:.T` only, so it holds
/// none of the characters `is_tab_special` names.
#[verifier::external_body]
fn rfc3339_string(utc_seconds: i64, offset_seconds: i32) -> (r: Option<String>)
    ensures
        r matches Some(s) ==> s@ == rfc3339_of(utc_seconds as int, offset_seconds as int)
            && plain_text(s@) && s@.len() > 0,
        ts_renderable(utc_seconds as int) && valid_offset(offset_seconds as int) ==> r is Some,
{
    let utc = chrono::DateTime::from_timestamp(utc_seconds, 0)?;
    let off = chrono::FixedOffset::east_opt(offset_seconds)?;
    Some(utc.with_timezone(&off).to_rfc3339())
}

/// Renders a fixed-offset timestamp as RFC 3339 text.
pub fn format_timestamp(t: FixedInstant) -> (r: Option<String>)
    ensures
        r matches Some(s) ==> s@ == rfc3339_of(t.utc_seconds as int, t.offset_seconds as int)
            && plain_text(s@) && s@.len() > 0,
        instant_renderable(t) ==> r is Some,
{
    rfc3339_string(t.utc_seconds, t.offset_seconds)
}

} // verus!
