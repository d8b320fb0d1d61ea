//! Timestamp presentation: relative labels ("5 minutes ago") computed and
//! proved exactly, and calendar formatting delegated to the `time` crate
//! behind trusted wrappers.

use vstd::prelude::*;
use crate::text;

verus! {

/// Relies on `time::OffsetDateTime::now_utc`: the current unix timestamp.
#[verifier::external_body]
pub fn now_unix() -> (r: i64) {
    time::OffsetDateTime::now_utc().unix_timestamp()
}

/// The calendar rendering of a timestamp at an offset, in the fixed
/// "month day, year, 12-hour time GMT±h" shape. Named; it depends on the
/// timestamp and offset alone.
pub uninterp spec fn datetime_text(ts: i64, offset: Option<i32>) -> Seq<char>;

/// Relies on `time::OffsetDateTime::from_unix_timestamp`,
/// `time::UtcOffset::from_whole_seconds`,
/// `time::OffsetDateTime::checked_to_offset` and
/// `time::format_description::parse` with the fixed display format.
/// `None` comes back when the timestamp or offset falls outside what the
/// calendar supports, shifted boundary dates included.
#[verifier::external_body]
pub fn to_datetime(ts: i64, offset: Option<i32>) -> (r: Option<String>)
    ensures
        r matches Some(t) ==> t@ == datetime_text(ts, offset),
{
    let t0 = time::OffsetDateTime::from_unix_timestamp(ts).ok()?;
    let t = match offset {
        Some(m) => t0.checked_to_offset(
            time::UtcOffset::from_whole_seconds(m.checked_mul(60)?).ok()?,
        )?,
        None => t0,
    };
    let desc = time::format_description::parse(
        "[month repr:short] [day], [year], [hour repr:12]:[minute] [period] GMT[offset_hour padding:none sign:mandatory]",
    ).ok()?;
    t.format(&desc).ok()
}

/// The rendering of a timestamp at an offset through a caller-supplied
/// format description. Named; it depends on the three arguments alone.
pub uninterp spec fn formatted_text(ts: i64, offset: Option<i32>, fmt: Seq<char>) -> Seq<char>;

/// Relies on the same `time` functions as [`to_datetime`], with the format
/// description parsed from `format`.
#[verifier::external_body]
pub fn to_datetime_format(ts: i64, offset: Option<i32>, format: &str) -> (r: Option<String>)
    ensures
        r matches Some(t) ==> t@ == formatted_text(ts, offset, format@),
{
    let t0 = time::OffsetDateTime::from_unix_timestamp(ts).ok()?;
    let t = match offset {
        Some(m) => t0.checked_to_offset(
            time::UtcOffset::from_whole_seconds(m.checked_mul(60)?).ok()?,
        )?,
        None => t0,
    };
    let desc = time::format_description::parse(format).ok()?;
    t.format(&desc).ok()
}

/// The relative label owed for a timestamp `then` seen at time `now`, or
/// nothing when the timestamp is old enough that a calendar date is shown
/// instead: "now" within ten seconds, then seconds, minutes, hours; days
/// up to a month, with "1 day", weeks, and "1 month" refinements; then
/// months up to eleven.
pub open spec fn spec_relative_label(now: int, then: int) -> Option<Seq<char>> {
    let seconds = now - then;
    if seconds <= 10 {
        Some("now"@)
    } else if seconds <= 59 {
        Some(text::spec_dec(seconds) + " seconds ago"@)
    } else {
        let minutes = seconds / 60;
        if minutes <= 59 {
            Some(text::spec_dec(minutes) + " minutes ago"@)
        } else {
            let hours = minutes / 60;
            if hours <= 23 {
                Some(text::spec_dec(hours) + " hours ago"@)
            } else {
                let days = hours / 24;
                if days <= 30 {
                    if days == 1 {
                        Some("1 day ago"@)
                    } else {
                        let weeks = days / 7;
                        if 1 <= weeks && weeks <= 3 {
                            if weeks == 1 {
                                Some("1 week ago"@)
                            } else {
                                Some(text::spec_dec(weeks) + " weeks ago"@)
                            }
                        } else if weeks >= 4 {
                            Some("1 month ago"@)
                        } else {
                            Some(text::spec_dec(days) + " days ago"@)
                        }
                    }
                } else {
                    let months = days / 30;
                    if months <= 11 {
                        Some(text::spec_dec(months) + " months ago"@)
                    } else {
                        None
                    }
                }
            }
        }
    }
}

/// Computes the relative label for `then` seen at `now`; `None` asks the
/// caller to fall back to a calendar date.
pub fn relative_label(now: i64, then: i64) -> (r: Option<String>)
    ensures
        (match r {
            Some(t) => spec_relative_label(now as int, then as int) == Some(t@),
            None => spec_relative_label(now as int, then as int) is None,
        }),
{
    let wide: i128 = now as i128 - then as i128;
    if wide <= 10 {
        return Some(String::from_str("now"));
    }
    let seconds: u64 = wide as u64;
    if seconds <= 59 {
        return Some(text::u64_to_dec(seconds).concat(" seconds ago"));
    }
    let minutes: u64 = seconds / 60;
    if minutes <= 59 {
        return Some(text::u64_to_dec(minutes).concat(" minutes ago"));
    }
    let hours: u64 = minutes / 60;
    if hours <= 23 {
        return Some(text::u64_to_dec(hours).concat(" hours ago"));
    }
    let days: u64 = hours / 24;
    if days <= 30 {
        if days == 1 {
            return Some(String::from_str("1 day ago"));
        }
        let weeks: u64 = days / 7;
        if 1 <= weeks && weeks <= 3 {
            if weeks == 1 {
                return Some(String::from_str("1 week ago"));
            }
            return Some(text::u64_to_dec(weeks).concat(" weeks ago"));
        }
        if weeks >= 4 {
            return Some(String::from_str("1 month ago"));
        }
        return Some(text::u64_to_dec(days).concat(" days ago"));
    }
    let months: u64 = days / 30;
    if months <= 11 {
        return Some(text::u64_to_dec(months).concat(" months ago"));
    }
    None
}

/// The relative label of `input` against the clock now; timestamps older
/// than eleven months fall back to a "month day, year" calendar date, and
/// to the empty string when even that cannot be formatted.
pub fn to_relative_time(input: i64) -> (r: String)
    ensures
        (exists|now: int| Some(r@) == #[trigger] spec_relative_label(now, input as int)) || r@
            == formatted_text(input, Option::None, "[month repr:short] [day], [year]"@) || r@
            == Seq::<char>::empty(),
{
    let now = now_unix();
    match relative_label(now, input) {
        Some(s) => s,
        None => match to_datetime_format(input, None, "[month repr:short] [day], [year]") {
            Some(s) => s,
            None => String::new(),
        },
    }
}

} // verus!
