use sys_time::{Month, Weekday};

#[test]
fn month_numbers_and_names() {
    let names = [
        "January", "February", "March", "April", "May", "June", "July", "August", "September",
        "October", "November", "December",
    ];
    for n in 1..=12u8 {
        assert_eq!(Month::from_number(n).name(), names[(n - 1) as usize]);
    }
    assert_eq!(Month::from_number(1), Month::January);
    assert_eq!(Month::from_number(12), Month::December);
}

#[test]
fn weekday_numbers_and_names() {
    let names = ["Monday", "Tuesday", "Wednesday", "Thursday", "Friday", "Saturday", "Sunday"];
    for n in 1..=7u8 {
        assert_eq!(Weekday::from_number(n).name(), names[(n - 1) as usize]);
    }
    assert_eq!(Weekday::from_number(4), Weekday::Thursday);
    assert_eq!(Weekday::from_number(7), Weekday::Sunday);
}
