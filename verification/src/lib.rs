//! Small utilities for services, with a calendar-based recurrence scheduler
//! at their centre: sets of allowed seconds, minutes, hours and days, and
//! the next instant after a given one that they allow.
//!
//! A field set ([`Seconds`], [`Minuters`], [`Hours`], [`MonthDays`],
//! [`WeekDays`]) is never empty and never leaves its domain. A recurrence
//! ([`DayHourMinuterSecondConf`]) is built from field sets in stages and then
//! asked, as often as needed, for the next instant after a given one. That
//! instant is the earliest one that the recurrence allows; [`earliest`] says
//! so and proves it.
//!
//! Beside it stand two smaller helpers: [`args`] looks things up in a command
//! line, [`daemon`] paces the heartbeat that a service owes its watchdog.

pub mod args;
pub mod bits;
pub mod bound;
pub mod builder;
pub mod calendar;
pub mod conf;
pub mod daemon;
pub mod days;
pub mod earliest;
pub mod error;
pub mod field;
pub mod sets;
pub mod staged;

pub use bound::Bound;
pub use builder::{
    CommonTime, CommonTimesBuilder, HoursBuilder, MinutersBuilder, MonthDaysBuilder,
    SecondsBuilder, WeekDaysBuilder,
};
pub use calendar::{Date, DateTime};
pub use conf::{
    get_val, DayConfBuilder, DayHourConfBuilder, DayHourMinuterConfBuilder,
    DayHourMinuterSecondConf, Possible,
};
pub use days::Days;
pub use error::SchedulerError;
pub use field::{Hours, Minuters, MonthDays, Operator, Seconds, WeekDays};
pub use staged::{
    MonthDayConfBuilder, MonthDayHourConfBuilder, MonthDayHourMinuterConfBuilder,
    MonthDayHourMinuterSecondConf, MonthDayHourMinuterSecondConfBuilder, WeekDayConfBuilder,
};
