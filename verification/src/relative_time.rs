//! A second, simpler relative-time rendering: the same cascade of units
//! without the week and month refinements, falling back to the plain
//! second count.

use vstd::prelude::*;
use crate::text;
use crate::time_utils;

verus! {

/// The plain relative label of `then` seen at `now`: "now" within ten
/// seconds, then seconds, minutes, hours, days up to thirty, months up to
/// twelve, and the raw second count beyond.
pub open spec fn spec_plain_label(now: int, then: int) -> Seq<char> {
    let seconds = now - then;
    if seconds <= 10 {
        "now"@
    } else if seconds <= 59 {
        text::spec_dec(seconds) + " seconds ago"@
    } else {
        let minutes = seconds / 60;
        if minutes <= 59 {
            text::spec_dec(minutes) + " minutes ago"@
        } else {
            let hours = minutes / 60;
            if hours <= 23 {
                text::spec_dec(hours) + " hours ago"@
            } else {
                let days = hours / 24;
                if days <= 30 {
                    text::spec_dec(days) + " days ago"@
                } else {
                    let months = days / 30;
                    if months <= 12 {
                        text::spec_dec(months) + " months ago"@
                    } else {
                        text::spec_dec(seconds)
                    }
                }
            }
        }
    }
}

/// Computes the plain relative label of `then` seen at `now`.
pub fn plain_label(now: i64, then: i64) -> (r: String)
    ensures
        r@ == spec_plain_label(now as int, then as int),
{
    let wide: i128 = now as i128 - then as i128;
    if wide <= 10 {
        return String::from_str("now");
    }
    let seconds: u64 = wide as u64;
    if seconds <= 59 {
        return text::u64_to_dec(seconds).concat(" seconds ago");
    }
    let minutes: u64 = seconds / 60;
    if minutes <= 59 {
        return text::u64_to_dec(minutes).concat(" minutes ago");
    }
    let hours: u64 = minutes / 60;
    if hours <= 23 {
        return text::u64_to_dec(hours).concat(" hours ago");
    }
    let days: u64 = hours / 24;
    if days <= 30 {
        return text::u64_to_dec(days).concat(" days ago");
    }
    let months: u64 = days / 30;
    if months <= 12 {
        return text::u64_to_dec(months).concat(" months ago");
    }
    text::u64_to_dec(seconds)
}

/// The plain relative label of `seconds` against the clock now.
pub fn to_string(seconds: i64) -> (r: String) {
    let now = time_utils::now_unix();
    plain_label(now, seconds)
}

} // verus!
