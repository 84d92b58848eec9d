//! Splitting an elapsed-seconds count into time-of-day fields and whole days.
use vstd::arithmetic::div_mod::{
    lemma_div_denominator,
    lemma_fundamental_div_mod,
    lemma_fundamental_div_mod_converse,
};
use vstd::prelude::*;

verus! {

pub const SECONDS_PER_MINUTE: u64 = 60;

pub const SECONDS_PER_HOUR: u64 = 3600;

pub const SECONDS_PER_DAY: u64 = 86400;

/// The (second, minute, hour, whole days) split of `t` elapsed seconds,
/// by floor division.
pub open spec fn time_of_day(t: int) -> (int, int, int, int) {
    (t % 60, (t / 60) % 60, (t / 3600) % 24, t / 86400)
}

/// The elapsed-seconds count with the given time of day after `days` whole days.
pub open spec fn seconds_from_parts(second: int, minute: int, hour: int, days: int) -> int {
    days * 86400 + hour * 3600 + minute * 60 + second
}

/// Splits `total` seconds into (second, minute, hour, whole days).
pub fn split_time_of_day(total: u64) -> (r: (u8, u8, u8, u64))
    ensures
        (r.0 as int, r.1 as int, r.2 as int, r.3 as int) == time_of_day(total as int),
        r.0 < 60,
        r.1 < 60,
        r.2 < 24,
{
    let second = (total % SECONDS_PER_MINUTE) as u8;
    let minute = ((total / SECONDS_PER_MINUTE) % 60) as u8;
    let hour = ((total / SECONDS_PER_HOUR) % 24) as u8;
    let days = total / SECONDS_PER_DAY;
    (second, minute, hour, days)
}

/// Splitting a count built from a valid time of day and a day count gives
/// back exactly those fields, and rebuilding a split count gives the count.
pub proof fn lemma_time_of_day_round_trip(second: int, minute: int, hour: int, days: int)
    requires
        0 <= second < 60,
        0 <= minute < 60,
        0 <= hour < 24,
        0 <= days,
    ensures
        time_of_day(seconds_from_parts(second, minute, hour, days)) == (second, minute, hour, days),
{
    let t = seconds_from_parts(second, minute, hour, days);
    let minutes = days * 1440 + hour * 60 + minute;
    let hours = days * 24 + hour;
    lemma_fundamental_div_mod_converse(t, 60, minutes, second);
    lemma_fundamental_div_mod_converse(minutes, 60, hours, minute);
    lemma_fundamental_div_mod_converse(t, 3600, hours, minute * 60 + second);
    lemma_fundamental_div_mod_converse(hours, 24, days, hour);
    lemma_fundamental_div_mod_converse(t, 86400, days, hour * 3600 + minute * 60 + second);
}

/// Rebuilding a count from its split gives back the count.
pub proof fn lemma_time_of_day_rebuild(t: int)
    requires
        0 <= t,
    ensures
        ({
            let (second, minute, hour, days) = time_of_day(t);
            seconds_from_parts(second, minute, hour, days) == t
        }),
{
    lemma_fundamental_div_mod(t, 60);
    lemma_fundamental_div_mod(t / 60, 60);
    lemma_div_denominator(t, 60, 60);
    lemma_fundamental_div_mod(t / 3600, 24);
    lemma_div_denominator(t, 3600, 24);
}

} // verus!
