//! How long ago something happened, in the largest whole unit.
use vstd::prelude::*;

verus! {

pub const MINUTE: i64 = 60;

pub const HOUR: i64 = 3600;

pub const DAY: i64 = 86400;

pub const WEEK: i64 = 604800;

/// `a / b` rounded toward zero.
pub open spec fn trunc_div(a: int, b: int) -> int {
    if a >= 0 {
        a / b
    } else {
        -((-a) / b)
    }
}

/// The count and unit (`w`, `d`, `h` or `m`) shown for an age of `seconds`:
/// weeks from one week on, days from one day on, hours from one hour on,
/// minutes below that.
pub open spec fn age_label(seconds: int) -> (int, Seq<char>) {
    if seconds >= WEEK {
        (seconds / WEEK as int, "w"@)
    } else if seconds >= DAY {
        (seconds / DAY as int, "d"@)
    } else if seconds >= HOUR {
        (seconds / HOUR as int, "h"@)
    } else {
        (trunc_div(seconds, MINUTE as int), "m"@)
    }
}

/// The count and unit shown for something `seconds` old.
pub fn relative_time(seconds: i64) -> (r: (i64, &'static str))
    ensures
        (r.0 as int, r.1@) == age_label(seconds as int),
{
    if seconds >= WEEK {
        (seconds / WEEK, "w")
    } else if seconds >= DAY {
        (seconds / DAY, "d")
    } else if seconds >= HOUR {
        (seconds / HOUR, "h")
    } else if seconds >= 0 {
        (seconds / MINUTE, "m")
    } else {
        let back = (-(seconds as i128)) / (MINUTE as i128);
        (-(back as i64), "m")
    }
}

/// `a - b`, held to the range of `i64`.
pub open spec fn clamped_diff(a: int, b: int) -> int {
    if a - b > i64::MAX {
        i64::MAX as int
    } else if a - b < i64::MIN {
        i64::MIN as int
    } else {
        a - b
    }
}

/// The count and unit shown, at time `now`, for something published at
/// `published` (both in seconds since the Unix epoch).
pub fn relative_time_between(published: i64, now: i64) -> (r: (i64, &'static str))
    ensures
        (r.0 as int, r.1@) == age_label(clamped_diff(now as int, published as int)),
{
    let diff = (now as i128) - (published as i128);
    let seconds: i64 = if diff > i64::MAX as i128 {
        i64::MAX
    } else if diff < i64::MIN as i128 {
        i64::MIN
    } else {
        diff as i64
    };
    relative_time(seconds)
}

} // verus!
