//! A UTC instant with its calendar fields, built from seconds since the Unix
//! epoch or from the system clock.
use crate::calendar::{
    civil_from_days,
    compute_day_of_week,
    epoch_day,
    is_valid_date,
    iso_weekday,
    lemma_epoch_day_injective,
    lemma_next_date,
    next_date,
};
use crate::labels::{Month, Weekday};
use crate::time_of_day::{split_time_of_day, time_of_day};
use std::time::{Duration, SystemTime, SystemTimeError};
use vstd::arithmetic::div_mod::lemma_mod_multiples_vanish;
use vstd::prelude::*;

verus! {

#[verifier::external_type_specification]
#[verifier::external_body]
pub struct ExSystemTime(SystemTime);

#[verifier::external_type_specification]
#[verifier::external_body]
pub struct ExSystemTimeError(SystemTimeError);

/// Relies on `SystemTime::now`: a reading of the system clock, of which
/// nothing is known.
#[verifier::external_body]
fn read_system_clock() -> SystemTime {
    SystemTime::now()
}

/// Relies on `SystemTime::UNIX_EPOCH`: the instant 1970-01-01 00:00:00 UTC.
#[verifier::external_body]
fn unix_epoch() -> SystemTime {
    SystemTime::UNIX_EPOCH
}

/// Relies on `SystemTime::duration_since`: the time elapsed from `earlier`,
/// or an error when `earlier` is later than `self`.
pub assume_specification[ SystemTime::duration_since ](
    this: &SystemTime,
    earlier: SystemTime,
) -> Result<Duration, SystemTimeError>;

/// Relies on `Duration::as_secs`: the whole seconds of a duration.
pub assume_specification[ Duration::as_secs ](this: &Duration) -> u64;

/// The fields of a UTC instant, as integers.
pub struct CivilTime {
    pub second: int,
    pub minute: int,
    pub hour: int,
    pub day: int,
    /// From 1 = January to 12 = December.
    pub month: int,
    pub year: int,
    /// ISO numbering, from 1 = Monday to 7 = Sunday.
    pub weekday: int,
    /// Seconds since 1970-01-01 00:00:00 UTC.
    pub timestamp: int,
}

impl CivilTime {
    /// Whole days since 1970-01-01.
    pub open spec fn day_number(self) -> int {
        self.timestamp / 86400
    }

    /// Whether the fields are those of the instant `timestamp` seconds after
    /// the epoch, in UTC with no leap seconds.
    pub open spec fn is_consistent(self) -> bool {
        &&& 0 <= self.timestamp <= u64::MAX
        &&& (self.second, self.minute, self.hour, self.day_number()) == time_of_day(
            self.timestamp,
        )
        &&& self.year >= 1970
        &&& is_valid_date(self.year, self.month, self.day)
        &&& epoch_day(self.year, self.month, self.day) == self.day_number()
        &&& self.weekday == iso_weekday(self.day_number())
    }
}

/// The fields of an instant are fixed by its timestamp.
pub proof fn lemma_consistent_unique(c1: CivilTime, c2: CivilTime)
    requires
        c1.is_consistent(),
        c2.is_consistent(),
        c1.timestamp == c2.timestamp,
    ensures
        c1 == c2,
{
    lemma_epoch_day_injective(c1.year, c1.month, c1.day, c2.year, c2.month, c2.day);
}

/// Every instant of the first day after the epoch falls on 1970-01-01, with
/// its time of day split from the timestamp by floor division.
pub proof fn lemma_first_day(c: CivilTime)
    requires
        c.is_consistent(),
        c.timestamp < 86400,
    ensures
        c.year == 1970,
        c.month == 1,
        c.day == 1,
        c.hour == c.timestamp / 3600,
        c.minute == (c.timestamp / 60) % 60,
        c.second == c.timestamp % 60,
{
    assert(epoch_day(1970, 1, 1) == 0);
    lemma_epoch_day_injective(c.year, c.month, c.day, 1970, 1, 1);
}

/// The instant a day later falls on the next date: the last day of a month
/// is followed by the first of the next month, or of January of the next
/// year, and any other day by the next day of its month.
pub proof fn lemma_next_day(c1: CivilTime, c2: CivilTime)
    requires
        c1.is_consistent(),
        c2.is_consistent(),
        c2.day_number() == c1.day_number() + 1,
    ensures
        (c2.year, c2.month, c2.day) == next_date(c1.year, c1.month, c1.day),
{
    lemma_next_date(c1.year, c1.month, c1.day);
    let (y, m, d) = next_date(c1.year, c1.month, c1.day);
    lemma_epoch_day_injective(c2.year, c2.month, c2.day, y, m, d);
}

/// Days of the week follow one another in a fixed cycle of seven: `k` days
/// later the weekday has moved `k` places on, so no two of seven
/// consecutive days share one.
pub proof fn lemma_weekday_cycle(c1: CivilTime, c2: CivilTime)
    requires
        c1.is_consistent(),
        c2.is_consistent(),
        c1.day_number() <= c2.day_number(),
    ensures
        c2.weekday == (c1.weekday - 1 + (c2.day_number() - c1.day_number())) % 7 + 1,
        c2.day_number() - c1.day_number() < 7 ==> (c1.weekday == c2.weekday <==> c1.day_number()
            == c2.day_number()),
        1 <= c2.weekday <= 7,
{
    let k = c2.day_number() - c1.day_number();
    let n = c1.day_number();
    assert((n + 3) % 7 + k == n + 3 + k - 7 * ((n + 3) / 7));
    lemma_mod_multiples_vanish(-((n + 3) / 7), n + 3 + k, 7);
}

/// A UTC instant, with its time of day, date and day of the week.
#[derive(Debug)]
pub struct DateTime {
    seconds: u8,
    minutes: u8,
    hours: u8,
    day: u8,
    weekday: Weekday,
    month: Month,
    year: u64,
    timestamp: u64,
}

impl View for DateTime {
    type V = CivilTime;

    closed spec fn view(&self) -> CivilTime {
        CivilTime {
            second: self.seconds as int,
            minute: self.minutes as int,
            hour: self.hours as int,
            day: self.day as int,
            month: self.month.number(),
            year: self.year as int,
            weekday: self.weekday.number(),
            timestamp: self.timestamp as int,
        }
    }
}

impl DateTime {
    #[verifier::type_invariant]
    spec fn is_well_formed(self) -> bool {
        self@.is_consistent()
    }

    /// The instant `timestamp` seconds after 1970-01-01 00:00:00 UTC.
    pub fn from_epoch_seconds(timestamp: u64) -> (r: DateTime)
        ensures
            r@.timestamp == timestamp,
            r@.is_consistent(),
    {
        let (seconds, minutes, hours, days) = split_time_of_day(timestamp);
        let (year, month, day) = civil_from_days(days);
        let weekday = compute_day_of_week(year, month, day);
        DateTime {
            seconds,
            minutes,
            hours,
            day,
            weekday: Weekday::from_number(weekday),
            month: Month::from_number(month),
            year,
            timestamp,
        }
    }

    /// The instant of a clock reading: `Some` of the whole seconds elapsed
    /// since the epoch, or `None` for a reading before the epoch, which is
    /// taken as the epoch itself.
    pub fn from_clock_reading(since_epoch: Option<u64>) -> (r: DateTime)
        ensures
            r@.is_consistent(),
            r@.timestamp == match since_epoch {
                Some(s) => s as int,
                None => 0,
            },
    {
        match since_epoch {
            Some(s) => DateTime::from_epoch_seconds(s),
            None => DateTime::from_epoch_seconds(0),
        }
    }

    /// The current instant by the system clock, in UTC.
    pub fn now_utc() -> (r: DateTime)
        ensures
            r@.is_consistent(),
    {
        let now = read_system_clock();
        let reading = match now.duration_since(unix_epoch()) {
            Ok(elapsed) => Some(elapsed.as_secs()),
            Err(_) => None,
        };
        DateTime::from_clock_reading(reading)
    }

    /// The hour of the day, from 0 to 23.
    pub fn hour(&self) -> (r: u8)
        ensures
            r == self@.hour,
            r < 24,
    {
        proof {
            use_type_invariant(self);
        }
        self.hours
    }

    /// The minute of the hour, from 0 to 59.
    pub fn minute(&self) -> (r: u8)
        ensures
            r == self@.minute,
            r < 60,
    {
        proof {
            use_type_invariant(self);
        }
        self.minutes
    }

    /// The second of the minute, from 0 to 59.
    pub fn second(&self) -> (r: u8)
        ensures
            r == self@.second,
            r < 60,
    {
        proof {
            use_type_invariant(self);
        }
        self.seconds
    }

    /// The day of the month, from 1.
    pub fn day(&self) -> (r: u8)
        ensures
            r == self@.day,
            1 <= r <= 31,
    {
        proof {
            use_type_invariant(self);
        }
        self.day
    }

    /// The year of the proleptic Gregorian calendar.
    pub fn year(&self) -> (r: u64)
        ensures
            r == self@.year,
            r >= 1970,
    {
        proof {
            use_type_invariant(self);
        }
        self.year
    }

    /// Seconds since 1970-01-01 00:00:00 UTC.
    pub fn unix_timestamp(&self) -> (r: u64)
        ensures
            r == self@.timestamp,
    {
        self.timestamp
    }

    /// Milliseconds since the epoch; always a whole number of seconds.
    pub fn unix_timestamp_millis(&self) -> (r: u128)
        ensures
            r == self@.timestamp * 1000,
    {
        self.timestamp as u128 * 1000
    }

    /// Nanoseconds since the epoch; always a whole number of seconds.
    pub fn unix_timestamp_nanos(&self) -> (r: u128)
        ensures
            r == self@.timestamp * 1_000_000_000,
    {
        self.timestamp as u128 * 1000000000
    }

    /// The month of the year.
    pub fn month(&self) -> (r: Month)
        ensures
            r.number() == self@.month,
    {
        self.month
    }

    /// The day of the week.
    pub fn weekday(&self) -> (r: Weekday)
        ensures
            r.number() == self@.weekday,
    {
        self.weekday
    }
}

} // verus!
