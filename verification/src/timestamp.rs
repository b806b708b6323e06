//! Timestamps: RFC 3339 text, Unix time, and the calendar date that names
//! a day's shard.

use crate::text::{padded, zero_padded};
use vstd::prelude::*;
use vstd::string::*;

verus! {

/// The Unix time, in seconds, of the instant that an RFC 3339 text denotes,
/// or an error where the text is not an RFC 3339 timestamp.
pub uninterp spec fn rfc3339_unix_seconds(text: Seq<char>) -> Result<i64, ()>;

/// The RFC 3339 text, in UTC, of the instant that lies `unix_nanos`
/// nanoseconds after the Unix epoch, where the instant has one.
pub uninterp spec fn rfc3339_text(unix_nanos: i128) -> Option<Seq<char>>;

/// Parse ISO timestamp to Unix timestamp.
///
/// Calls `time::OffsetDateTime::parse` with the `Rfc3339` description and
/// takes `unix_timestamp` of what it gives. The contract claims only that
/// the answer depends on the text alone.
#[verifier::external_body]
pub fn parse_timestamp(timestamp_str: &str) -> (seconds: Result<i64, ()>)
    ensures
        seconds == rfc3339_unix_seconds(timestamp_str@),
{
    time::OffsetDateTime::parse(timestamp_str, &time::format_description::well_known::Rfc3339)
        .map(|instant| instant.unix_timestamp())
        .map_err(|_| ())
}

/// Writes an instant as RFC 3339 text.
///
/// Calls `time::OffsetDateTime::from_unix_timestamp_nanos` and `format`
/// with the `Rfc3339` description; either may refuse, for an instant out of
/// the calendar's range or a year that has no four digits. The contract
/// claims only that the answer depends on the instant alone.
#[verifier::external_body]
fn rfc3339(unix_nanos: i128) -> (text: Option<String>)
    ensures
        match text {
            Some(written) => rfc3339_text(unix_nanos) == Some(written@),
            None => rfc3339_text(unix_nanos) is None,
        },
{
    time::OffsetDateTime::from_unix_timestamp_nanos(unix_nanos).ok()?.format(
        &time::format_description::well_known::Rfc3339,
    ).ok()
}

/// The text that stands for an instant that cannot be written.
pub open spec fn epoch_text() -> Seq<char> {
    "1970-01-01T00:00:00Z"@
}

/// The text of an instant, as queries compare it with stored timestamps.
pub open spec fn timestamp_text(unix_nanos: i128) -> Seq<char> {
    match rfc3339_text(unix_nanos) {
        Some(text) => text,
        None => epoch_text(),
    }
}

/// The text, once the instant was written or could not be.
pub open spec fn text_or_epoch(written: Option<Seq<char>>) -> Seq<char> {
    match written {
        Some(text) => text,
        None => epoch_text(),
    }
}

/// Takes the text of an instant, or that of the epoch where it has none.
pub fn or_epoch(written: Option<String>) -> (text: String)
    ensures
        text@ == text_or_epoch(
            match written {
                Some(w) => Some(w@),
                None => None,
            },
        ),
{
    match written {
        Some(text) => text,
        None => String::from_str("1970-01-01T00:00:00Z"),
    }
}

/// Format timestamp in RFC 3339 for comparison with stored timestamps. An
/// instant that cannot be written is given as the epoch.
pub fn format_timestamp(unix_nanos: i128) -> (text: String)
    ensures
        text@ == timestamp_text(unix_nanos),
{
    or_epoch(rfc3339(unix_nanos))
}

/// Nanoseconds in an hour.
pub const NANOS_PER_HOUR: i128 = 3600000000000;

/// The instant at which a window of `hours` hours that ends at `now_nanos`
/// begins.
pub open spec fn window_start(now_nanos: i128, hours: u32) -> int {
    now_nanos - hours * NANOS_PER_HOUR
}

/// The bounds of a lookback window, as text: the window ends now and spans
/// `hours` hours.
pub fn window_bounds(now_nanos: i128, hours: u32) -> (bounds: (String, String))
    requires
        window_start(now_nanos, hours) >= i128::MIN,
    ensures
        bounds.0@ == timestamp_text(window_start(now_nanos, hours) as i128),
        bounds.1@ == timestamp_text(now_nanos),
{
    let span: i128 = (hours as i128) * NANOS_PER_HOUR;
    let start: i128 = now_nanos - span;
    (format_timestamp(start), format_timestamp(now_nanos))
}

/// The year of a date, in at least four characters, the sign of a negative
/// year among them.
pub open spec fn year_text(year: int) -> Seq<char> {
    if year >= 0 {
        padded(year as nat, 4)
    } else {
        "-"@ + padded((-year) as nat, 3)
    }
}

/// A calendar date as `YYYY-MM-DD`.
pub open spec fn date_text(year: int, month: nat, day: nat) -> Seq<char> {
    year_text(year) + "-"@ + padded(month, 2) + "-"@ + padded(day, 2)
}

/// Writes a calendar date as `YYYY-MM-DD`, the form that names a day's
/// shard.
pub fn format_date(year: i32, month: u8, day: u8) -> (date: String)
    ensures
        date@ == date_text(year as int, month as nat, day as nat),
{
    let mut date = String::new();
    if year >= 0 {
        let digits = zero_padded(year as u64, 4);
        date.append(digits.as_str());
    } else {
        let size: u64 = (-(year as i64)) as u64;
        let digits = zero_padded(size, 3);
        date.append("-");
        date.append(digits.as_str());
    }
    date.append("-");
    let month_digits = zero_padded(month as u64, 2);
    date.append(month_digits.as_str());
    date.append("-");
    let day_digits = zero_padded(day as u64, 2);
    date.append(day_digits.as_str());
    proof {
        assert(date@ =~= date_text(year as int, month as nat, day as nat));
    }
    date
}

} // verus!
