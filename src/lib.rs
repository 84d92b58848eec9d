//! UTC calendar conversion from seconds since the Unix epoch, with no
//! platform calendar or time zone support.

pub mod calendar;
pub mod datetime;
pub mod labels;
pub mod time_of_day;

pub use calendar::{civil_from_days, compute_day_of_week};
pub use datetime::DateTime;
pub use labels::{Month, Weekday};
pub use time_of_day::split_time_of_day;
