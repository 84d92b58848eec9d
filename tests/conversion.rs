use sys_time::{civil_from_days, compute_day_of_week, split_time_of_day, DateTime, Month, Weekday};

const DAY: u64 = 86400;

fn date_of(seconds: u64) -> (u64, Month, u8) {
    let dt = DateTime::from_epoch_seconds(seconds);
    (dt.year(), dt.month(), dt.day())
}

#[test]
fn first_day_is_1970_01_01() {
    for s in [0u64, 1, 59, 60, 3599, 3600, 43200, 86399] {
        let dt = DateTime::from_epoch_seconds(s);
        assert_eq!(dt.year(), 1970);
        assert_eq!(dt.month(), Month::January);
        assert_eq!(dt.day(), 1);
        assert_eq!(dt.hour() as u64, s / 3600);
        assert_eq!(dt.minute() as u64, (s / 60) % 60);
        assert_eq!(dt.second() as u64, s % 60);
    }
}

#[test]
fn first_day_every_second() {
    for s in 0..DAY {
        let dt = DateTime::from_epoch_seconds(s);
        assert_eq!((dt.year(), dt.month(), dt.day()), (1970, Month::January, 1));
        assert_eq!(
            (dt.hour() as u64, dt.minute() as u64, dt.second() as u64),
            (s / 3600, (s / 60) % 60, s % 60)
        );
    }
}

#[test]
fn time_of_day_round_trip() {
    for days in [0u64, 1, 365, 20089, 213503982334600] {
        for hour in [0u64, 1, 12, 23] {
            for minute in [0u64, 1, 30, 59] {
                for second in [0u64, 1, 30, 59] {
                    let t = days * DAY + hour * 3600 + minute * 60 + second;
                    let (s, m, h, d) = split_time_of_day(t);
                    assert_eq!((s as u64, m as u64, h as u64, d), (second, minute, hour, days));
                }
            }
        }
    }
}

#[test]
fn epoch_is_a_thursday() {
    let dt = DateTime::from_epoch_seconds(0);
    assert_eq!(date_of(0), (1970, Month::January, 1));
    assert_eq!((dt.hour(), dt.minute(), dt.second()), (0, 0, 0));
    assert_eq!(dt.weekday(), Weekday::Thursday);
}

#[test]
fn second_day_is_a_friday() {
    let dt = DateTime::from_epoch_seconds(DAY);
    assert_eq!(date_of(DAY), (1970, Month::January, 2));
    assert_eq!(dt.weekday(), Weekday::Friday);
}

#[test]
fn leap_day_of_2000() {
    assert_eq!(date_of(11016 * DAY), (2000, Month::February, 29));
    assert_eq!(date_of(11017 * DAY), (2000, Month::March, 1));
    assert_eq!(DateTime::from_epoch_seconds(11016 * DAY).weekday(), Weekday::Tuesday);
    assert_eq!(civil_from_days(11016), (2000, 2, 29));
}

#[test]
fn no_leap_day_in_2100() {
    assert_eq!(civil_from_days(47540), (2100, 2, 28));
    assert_eq!(civil_from_days(47541), (2100, 3, 1));
}

#[test]
fn month_ends_roll_over() {
    // The last day of each month of 2023 and of the leap year 2024.
    for year in [2023u64, 2024] {
        let lengths: [u8; 12] = if year == 2024 {
            [31, 29, 31, 30, 31, 30, 31, 31, 30, 31, 30, 31]
        } else {
            [31, 28, 31, 30, 31, 30, 31, 31, 30, 31, 30, 31]
        };
        let mut first: u64 = if year == 2023 { 19358 } else { 19723 };
        for (i, len) in lengths.iter().enumerate() {
            let month = (i + 1) as u8;
            let last = first + *len as u64 - 1;
            assert_eq!(civil_from_days(first), (year, month, 1));
            assert_eq!(civil_from_days(last), (year, month, *len));
            let next = if month == 12 { (year + 1, 1, 1) } else { (year, month + 1, 1) };
            assert_eq!(civil_from_days(last + 1), next);
            first = last + 1;
        }
    }
}

#[test]
fn new_year_2025() {
    assert_eq!(date_of(1735689599), (2024, Month::December, 31));
    let dt = DateTime::from_epoch_seconds(1735689599);
    assert_eq!((dt.hour(), dt.minute(), dt.second()), (23, 59, 59));
    assert_eq!(dt.weekday(), Weekday::Tuesday);
    assert_eq!(date_of(1735689600), (2025, Month::January, 1));
}

#[test]
fn weekdays_cycle_through_seven_days() {
    let order = [
        Weekday::Monday,
        Weekday::Tuesday,
        Weekday::Wednesday,
        Weekday::Thursday,
        Weekday::Friday,
        Weekday::Saturday,
        Weekday::Sunday,
    ];
    for start in [0u64, 5, 11016, 47538, 2932890] {
        let first = DateTime::from_epoch_seconds(start * DAY).weekday();
        let at = order.iter().position(|w| *w == first).unwrap();
        for k in 0..14u64 {
            let w = DateTime::from_epoch_seconds((start + k) * DAY + 7).weekday();
            assert_eq!(w, order[(at + k as usize) % 7]);
        }
    }
}

#[test]
fn zeller_weekdays() {
    assert_eq!(compute_day_of_week(1970, 1, 1), 4);
    assert_eq!(compute_day_of_week(2000, 2, 29), 2);
    assert_eq!(compute_day_of_week(2023, 4, 30), 7);
    assert_eq!(compute_day_of_week(2100, 3, 1), 1);
    assert_eq!(compute_day_of_week(9999, 12, 31), 5);
}

#[test]
fn far_future() {
    assert_eq!(civil_from_days(2932896), (9999, 12, 31));
    let dt = DateTime::from_epoch_seconds(u64::MAX);
    assert_eq!(dt.year(), 584554051223);
    assert_eq!(dt.month(), Month::November);
    assert_eq!(dt.day(), 9);
    assert_eq!((dt.hour(), dt.minute(), dt.second()), (7, 0, 15));
    assert_eq!(dt.weekday(), Weekday::Thursday);
}

#[test]
fn timestamp_scaling() {
    for s in [0u64, 1, 1735689600, u64::MAX] {
        let dt = DateTime::from_epoch_seconds(s);
        assert_eq!(dt.unix_timestamp(), s);
        assert_eq!(dt.unix_timestamp_millis(), s as u128 * 1000);
        assert_eq!(dt.unix_timestamp_nanos(), s as u128 * 1_000_000_000);
    }
}

#[test]
fn clock_before_epoch_is_clamped() {
    let dt = DateTime::from_clock_reading(None);
    assert_eq!(dt.unix_timestamp(), 0);
    assert_eq!(date_of(0), (dt.year(), dt.month(), dt.day()));
    let later = DateTime::from_clock_reading(Some(DAY));
    assert_eq!(later.unix_timestamp(), DAY);
    assert_eq!(later.day(), 2);
}

#[test]
fn now_is_recent() {
    let now = DateTime::now_utc();
    assert!(now.year() >= 2022);
}
