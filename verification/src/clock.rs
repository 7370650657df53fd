//! Millisecond timestamps: reading the clock, and the text that receipts carry.
use crate::text::{decimal, decimal_i64};
use vstd::prelude::*;

verus! {

/// Nanoseconds in a millisecond.
pub const NANOS_PER_MILLI: i128 = 1_000_000;

/// The RFC 3339 text of the instant `nanos` nanoseconds after the Unix epoch, in UTC.
pub uninterp spec fn rfc3339_text(nanos: int) -> Seq<char>;

/// The instants that RFC 3339 can write: those of the years 0 to 9999.
pub open spec fn rfc3339_writes(nanos: int) -> bool {
    -62_167_219_200_000_000_000 <= nanos < 253_402_300_800_000_000_000
}

/// What a millisecond timestamp is shown as: its RFC 3339 text, or the plain number where
/// RFC 3339 has none.
pub open spec fn timestamp_text(timestamp_ms: i64) -> Seq<char> {
    if rfc3339_writes(timestamp_ms * NANOS_PER_MILLI) {
        rfc3339_text(timestamp_ms * NANOS_PER_MILLI)
    } else {
        decimal(timestamp_ms as int)
    }
}

/// Nanoseconds rounded toward zero to milliseconds, or the largest `i64` where that does
/// not fit.
pub open spec fn millis_in_nanos(nanos: int) -> i64 {
    let millis = if nanos >= 0 {
        nanos / (NANOS_PER_MILLI as int)
    } else {
        -((-nanos) / (NANOS_PER_MILLI as int))
    };
    if i64::MIN <= millis <= i64::MAX {
        millis as i64
    } else {
        i64::MAX
    }
}

/// Calls `time::OffsetDateTime::from_unix_timestamp_nanos`, and `OffsetDateTime::format`
/// with `Rfc3339` on the date-time that it gives.
///
/// Trusted: a text comes back exactly for the instants of the years 0 to 9999 (the first
/// call accepts those and some more, the second refuses the rest), and it depends on the
/// instant alone. How a date is written is left to the crate.
#[verifier::external_body]
fn format_rfc3339(nanos: i128) -> (r: Option<String>)
    ensures
        r is Some <==> rfc3339_writes(nanos as int),
        r matches Some(text) ==> text@ == rfc3339_text(nanos as int),
{
    time::OffsetDateTime::from_unix_timestamp_nanos(nanos)
        .ok()?
        .format(&time::format_description::well_known::Rfc3339)
        .ok()
}

/// Calls `time::OffsetDateTime::now_utc` and `OffsetDateTime::unix_timestamp_nanos`.
///
/// Trusted: the instant is one that a date-time can hold, so it lies within 32 000 000 000 000
/// seconds (about a million years) of the epoch. Which instant it is, the clock decides.
#[verifier::external_body]
fn now_nanos() -> (nanos: i128)
    ensures
        -32_000_000_000_000_000_000_000 < nanos < 32_000_000_000_000_000_000_000,
{
    time::OffsetDateTime::now_utc().unix_timestamp_nanos()
}

/// The milliseconds in `nanos`.
pub fn millis_of_nanos(nanos: i128) -> (millis: i64)
    ensures
        millis == millis_in_nanos(nanos as int),
{
    let millis: i128 = nanos / NANOS_PER_MILLI;
    if millis < i64::MIN as i128 || millis > i64::MAX as i128 {
        i64::MAX
    } else {
        millis as i64
    }
}

/// The current time in milliseconds since the Unix epoch. It never saturates.
pub fn now_ms() -> (millis: i64)
    ensures
        -32_000_000_000_000_000 < millis < 32_000_000_000_000_000,
{
    let nanos: i128 = now_nanos();
    millis_of_nanos(nanos)
}

/// The text for `timestamp_ms`, given what formatting it gave.
pub fn timestamp_or_number(formatted: Option<String>, timestamp_ms: i64) -> (r: String)
    ensures
        r@ == (match formatted {
            Some(text) => text@,
            None => decimal(timestamp_ms as int),
        }),
{
    match formatted {
        Some(text) => text,
        None => decimal_i64(timestamp_ms),
    }
}

/// The text that shows `timestamp_ms`.
pub fn format_timestamp(timestamp_ms: i64) -> (r: String)
    ensures
        r@ == timestamp_text(timestamp_ms),
{
    let nanos: i128 = timestamp_ms as i128 * NANOS_PER_MILLI;
    timestamp_or_number(format_rfc3339(nanos), timestamp_ms)
}

/// Milliseconds are the nanoseconds cut toward zero, where they fit, and the largest number where
/// they do not.
pub proof fn law_nanoseconds_are_cut(nanos: int)
    ensures
        ({
            let millis = millis_in_nanos(nanos) as int;
            let low = i64::MIN as int * 1_000_000 - 1_000_000;
            let high = i64::MAX as int * 1_000_000 + 1_000_000;
            &&& 0 <= nanos < high ==> 0 <= millis && millis * 1_000_000 <= nanos < millis * 1_000_000
                + 1_000_000
            &&& low < nanos <= 0 ==> millis <= 0 && millis * 1_000_000 - 1_000_000 < nanos <= millis
                * 1_000_000
            &&& nanos <= low || high <= nanos ==> millis == i64::MAX
        }),
{
}

/// A timestamp of the years 0 to 9999 is written as a date, and any other as a number.
pub proof fn law_timestamps_are_dates_or_numbers(timestamp_ms: i64)
    ensures
        -62_167_219_200_000 <= timestamp_ms < 253_402_300_800_000 ==> timestamp_text(timestamp_ms)
            == rfc3339_text(timestamp_ms * 1_000_000),
        !(-62_167_219_200_000 <= timestamp_ms < 253_402_300_800_000) ==> timestamp_text(
            timestamp_ms,
        ) == decimal(timestamp_ms as int),
{
}

} // verus!
