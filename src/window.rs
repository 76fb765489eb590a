//! The optional gate that keeps jobs from straddling the day/night boundary.
use crate::text::{parse_i64, signed_of, split_char, split_on, views};
use vstd::prelude::*;

verus! {

/// First hour of the operational day.
pub const DAY_START_HOUR: i64 = 9;

/// Last hour of the operational day.
pub const DAY_END_HOUR: i64 = 19;

/// Largest length, in seconds, that a duration may have.
pub const MAX_DURATION_SECONDS: i64 = 9_223_372_036_854_775;

pub open spec fn i64_of(s: Seq<char>) -> Option<int> {
    signed_of(s, 0x8000_0000_0000_0000nat, i64::MAX as nat)
}

pub open spec fn in_range(secs: int) -> bool {
    -MAX_DURATION_SECONDS <= secs <= MAX_DURATION_SECONDS
}

/// Hours, then minutes, then seconds: the sum of `parts` from the left, each
/// partial sum within the duration range.
pub open spec fn sum_within(total: int, next: int) -> Option<int> {
    if in_range(next) && in_range(total + next) {
        Some(total + next)
    } else {
        None
    }
}

/// A walltime `H`, `H:M` or `H:M:S`, in seconds.
pub open spec fn walltime_seconds(w: Seq<char>) -> Option<int> {
    let p = split_on(w, ':');
    if p.len() < 1 || p.len() > 3 {
        None
    } else {
        match i64_of(p[0]) {
            None => None,
            Some(h) => match sum_within(0, h * 3600) {
                None => None,
                Some(t1) => if p.len() == 1 {
                    Some(t1)
                } else {
                    match i64_of(p[1]) {
                        None => None,
                        Some(m) => match sum_within(t1, m * 60) {
                            None => None,
                            Some(t2) => if p.len() == 2 {
                                Some(t2)
                            } else {
                                match i64_of(p[2]) {
                                    None => None,
                                    Some(s) => sum_within(t2, s),
                                }
                            },
                        },
                    }
                },
            },
        }
    }
}

fn add_within(total: i64, part: i64, unit: i64) -> (r: Option<i64>)
    requires
        in_range(total as int),
        unit == 1 || unit == 60 || unit == 3600,
    ensures
        r == (match sum_within(total as int, part * unit) {
            Some(t) => Some(t as i64),
            None => None::<i64>,
        }),
{
    let p: i128 = part as i128 * unit as i128;
    if p < -(MAX_DURATION_SECONDS as i128) || p > MAX_DURATION_SECONDS as i128 {
        return None;
    }
    let t: i128 = total as i128 + p;
    if t < -(MAX_DURATION_SECONDS as i128) || t > MAX_DURATION_SECONDS as i128 {
        return None;
    }
    Some(t as i64)
}

/// Reads a walltime `H`, `H:M` or `H:M:S` as a number of seconds.
pub fn parse_walltime(walltime: &str) -> (r: Option<i64>)
    ensures
        r == (match walltime_seconds(walltime@) {
            Some(t) => Some(t as i64),
            None => None::<i64>,
        }),
{
    let parts = split_char(walltime, ':');
    proof {
        assert(views(parts@).len() == parts@.len());
    }
    if parts.len() < 1 || parts.len() > 3 {
        return None;
    }
    proof {
        assert(views(parts@)[0] == parts@[0]@);
    }
    let h = match parse_i64(parts[0].as_str()) {
        Some(h) => h,
        None => {
            return None;
        },
    };
    let t1 = match add_within(0, h, 3600) {
        Some(t) => t,
        None => {
            return None;
        },
    };
    if parts.len() == 1 {
        return Some(t1);
    }
    proof {
        assert(views(parts@)[1] == parts@[1]@);
    }
    let m = match parse_i64(parts[1].as_str()) {
        Some(m) => m,
        None => {
            return None;
        },
    };
    let t2 = match add_within(t1, m, 60) {
        Some(t) => t,
        None => {
            return None;
        },
    };
    if parts.len() == 2 {
        return Some(t2);
    }
    proof {
        assert(views(parts@)[2] == parts@[2]@);
    }
    let s = match parse_i64(parts[2].as_str()) {
        Some(s) => s,
        None => {
            return None;
        },
    };
    add_within(t2, s, 1)
}

/// Whole hours of a duration, rounded toward zero.
pub open spec fn whole_hours(secs: int) -> int {
    if secs >= 0 {
        secs / 3600
    } else {
        -((-secs) / 3600)
    }
}

/// Remainder of a division by 24 that takes the sign of the dividend.
pub open spec fn rem24(a: int) -> int {
    if a >= 0 {
        a % 24
    } else {
        -((-a) % 24)
    }
}

/// A job started at `current_hour` and lasting `walltime` (no time at all when
/// it does not parse) stays on one side of the day/night boundary.
pub open spec fn fits_window(current_hour: int, walltime: Seq<char>) -> bool {
    let secs = match walltime_seconds(walltime) {
        Some(t) => t,
        None => 0,
    };
    let adjusted = rem24(current_hour + whole_hours(secs));
    (adjusted > DAY_START_HOUR && adjusted < DAY_END_HOUR && current_hour >= DAY_START_HOUR)
        || (adjusted > DAY_END_HOUR && current_hour > DAY_END_HOUR) || (adjusted < DAY_START_HOUR
        && current_hour < DAY_START_HOUR) || (adjusted < DAY_START_HOUR && current_hour
        > DAY_END_HOUR)
}

/// Whether a job of the given walltime may start at `current_hour`.
pub fn within_time_window(current_hour: u32, walltime: &str) -> (r: bool)
    requires
        current_hour < 24,
    ensures
        r == fits_window(current_hour as int, walltime@),
{
    let secs: i64 = match parse_walltime(walltime) {
        Some(t) => t,
        None => 0,
    };
    let hours: i64 = if secs >= 0 {
        secs / 3600
    } else {
        -((-secs) / 3600)
    };
    let a: i64 = current_hour as i64 + hours;
    let adjusted: i64 = if a >= 0 {
        a % 24
    } else {
        -((-a) % 24)
    };
    let cur = current_hour as i64;
    (adjusted > DAY_START_HOUR && adjusted < DAY_END_HOUR && cur >= DAY_START_HOUR) || (adjusted
        > DAY_END_HOUR && cur > DAY_END_HOUR) || (adjusted < DAY_START_HOUR && cur
        < DAY_START_HOUR) || (adjusted < DAY_START_HOUR && cur > DAY_END_HOUR)
}

} // verus!
