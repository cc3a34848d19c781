//! UNIX timestamps rendered as RFC 3339 dates (the `chrono` crate).

use vstd::prelude::*;

verus! {

/// The earliest timestamp `chrono` represents: -262143-01-01T00:00:00Z,
/// the first day of `NaiveDate::MIN`.
pub open spec fn min_timestamp() -> int {
    -8_334_601_228_800
}

/// The latest timestamp `chrono` represents: +262142-12-31T23:59:59Z,
/// the last second of `NaiveDate::MAX`.
pub open spec fn max_timestamp() -> int {
    8_210_266_876_799
}

/// Whether `chrono` can represent the timestamp.
pub open spec fn timestamp_in_range(secs: int) -> bool {
    min_timestamp() <= secs <= max_timestamp()
}

/// The RFC 3339 text (offset `+00:00`) of a UNIX timestamp, as
/// `chrono::DateTime::to_rfc3339` writes it.
pub uninterp spec fn rfc3339_utc(secs: int) -> Seq<char>;

/// `chrono::DateTime::from_timestamp(secs, 0)` rendered with `to_rfc3339`.
/// The contract claims that the date exists exactly for the timestamps in
/// the range of `NaiveDate` (January 1, 262144 BCE to December 31, 262142 CE,
/// as chrono documents it), and that the text is `rfc3339_utc` of the
/// timestamp; the calendar arithmetic and formatting are not stated.
#[verifier::external_body]
pub(crate) fn rfc3339_from_timestamp(secs: i64) -> (res: Option<String>)
    ensures
        res is Some <==> timestamp_in_range(secs as int),
        res matches Some(s) ==> s@ == rfc3339_utc(secs as int),
{
    let date = chrono::DateTime::from_timestamp(secs, 0)?;
    Some(date.to_rfc3339())
}

/// Whether a scrobble time can be rendered as a date.
pub fn timestamp_representable(secs: i64) -> (res: bool)
    ensures
        res == timestamp_in_range(secs as int),
{
    -8_334_601_228_800 <= secs && secs <= 8_210_266_876_799
}

} // verus!
