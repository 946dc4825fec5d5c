//! Calendar dates and instants, and the date arithmetic that the search for
//! the next instant needs.
//!
//! A date is held as year, month and day; the arithmetic itself is done by
//! the `time` crate, whose answers are stated here over the proleptic
//! Gregorian calendar.

use vstd::prelude::*;
use vstd::pervasive::unreached;
use crate::error::SchedulerError;

verus! {

/// The first year that a date can have.
pub const MIN_YEAR: i32 = -9999;

/// The last year that a date can have.
pub const MAX_YEAR: i32 = 9999;

/// A date in the model: three integers.
pub struct DateView {
    pub year: int,
    pub month: int,
    pub day: int,
}

/// An instant in the model: a date, the day of the week that the clock gave
/// for it (Monday is 1, Sunday 7), and the time of day.
pub struct DateTimeView {
    pub date: DateView,
    pub week_day: int,
    pub hour: int,
    pub minuter: int,
    pub second: int,
}

/// The Gregorian rule: every fourth year, but of the years that end a
/// century only every fourth.
pub open spec fn is_leap_year(year: int) -> bool {
    year % 4 == 0 && (year % 100 != 0 || year % 400 == 0)
}

/// The number of days of a month.
pub open spec fn days_in_month(year: int, month: int) -> int {
    if month == 2 {
        if is_leap_year(year) {
            29
        } else {
            28
        }
    } else if month == 4 || month == 6 || month == 9 || month == 11 {
        30
    } else {
        31
    }
}

/// Whether the calendar has this date, in the years `MIN_YEAR..=MAX_YEAR`.
pub open spec fn is_date(d: DateView) -> bool {
    &&& MIN_YEAR <= d.year <= MAX_YEAR
    &&& 1 <= d.month <= 12
    &&& 1 <= d.day <= days_in_month(d.year, d.month)
}

/// The day after `d`.
pub open spec fn day_after(d: DateView) -> DateView {
    if d.day < days_in_month(d.year, d.month) {
        DateView { day: d.day + 1, ..d }
    } else if d.month < 12 {
        DateView { month: d.month + 1, day: 1, ..d }
    } else {
        DateView { year: d.year + 1, month: 1, day: 1 }
    }
}

/// The date `n` days after `d`.
pub open spec fn days_later(d: DateView, n: nat) -> DateView
    decreases n,
{
    if n == 0 {
        d
    } else {
        days_later(day_after(d), (n - 1) as nat)
    }
}

/// The first day of the month after that of `d`.
pub open spec fn next_month_start(d: DateView) -> DateView {
    if d.month < 12 {
        DateView { month: d.month + 1, day: 1, ..d }
    } else {
        DateView { year: d.year + 1, month: 1, day: 1 }
    }
}

/// A date of the model as the result of date arithmetic: itself where the
/// calendar has it, `CalendarOverflow` where it has not.
pub open spec fn checked_date(d: DateView) -> Result<DateView, SchedulerError> {
    if is_date(d) {
        Ok(d)
    } else {
        Err(SchedulerError::CalendarOverflow)
    }
}

/// Whether `a` is an earlier date than `b`.
pub open spec fn date_before(a: DateView, b: DateView) -> bool {
    ||| a.year < b.year
    ||| a.year == b.year && a.month < b.month
    ||| a.year == b.year && a.month == b.month && a.day < b.day
}

/// Whether `a` is an earlier instant than `b`. The day of the week plays no
/// part in it.
pub open spec fn instant_before(a: DateTimeView, b: DateTimeView) -> bool {
    ||| date_before(a.date, b.date)
    ||| a.date == b.date && a.hour < b.hour
    ||| a.date == b.date && a.hour == b.hour && a.minuter < b.minuter
    ||| a.date == b.date && a.hour == b.hour && a.minuter == b.minuter && a.second < b.second
}

/// Whether month and day are those of a date of the calendar, whatever the
/// year.
pub open spec fn is_month_day(d: DateView) -> bool {
    1 <= d.month <= 12 && 1 <= d.day <= days_in_month(d.year, d.month)
}

/// The rule of the leap years in the form in which the `time` crate tests
/// it: every fourth year, but of those that 25 divides only those that 16
/// divides.
pub proof fn lemma_leap_year_forms(year: int)
    ensures
        is_leap_year(year) <==> (year % 4 == 0 && (year % 25 != 0 || year % 16 == 0)),
{
}

/// A date is earlier than every date that comes one or more days after it.
pub proof fn lemma_days_later_is_after(d: DateView, n: nat)
    requires
        is_month_day(d),
        n >= 1,
    ensures
        date_before(d, days_later(d, n)),
        is_month_day(days_later(d, n)),
    decreases n,
{
    let next = day_after(d);
    assert(date_before(d, next));
    assert(is_month_day(next));
    if n > 1 {
        lemma_days_later_is_after(next, (n - 1) as nat);
    } else {
        assert(days_later(next, 0) == next);
    }
}

/// Going on by `a` days and then by `b` days is going on by `a + b` days.
pub proof fn lemma_days_later_add(d: DateView, a: nat, b: nat)
    ensures
        days_later(d, a + b) == days_later(days_later(d, a), b),
    decreases a,
{
    if a > 0 {
        lemma_days_later_add(day_after(d), (a - 1) as nat, b);
    }
}

/// As long as the month lasts, going on by days only counts up the day.
pub proof fn lemma_days_later_in_month(d: DateView, k: nat)
    requires
        is_month_day(d),
        d.day + k <= days_in_month(d.year, d.month),
    ensures
        days_later(d, k) == (DateView { day: d.day + k, ..d }),
    decreases k,
{
    if k > 0 {
        lemma_days_later_in_month(day_after(d), (k - 1) as nat);
    }
}

/// Past the end of the month, going on by days leads into the next month:
/// the days that the month still has are used up first.
pub proof fn lemma_days_later_next_month(d: DateView, k: nat)
    requires
        is_month_day(d),
        d.day + k > days_in_month(d.year, d.month),
        d.day + k - days_in_month(d.year, d.month) <= days_in_month(
            next_month_start(d).year,
            next_month_start(d).month,
        ),
    ensures
        days_later(d, k) == (DateView {
            day: d.day + k - days_in_month(d.year, d.month),
            ..next_month_start(d)
        }),
{
    let rest = (days_in_month(d.year, d.month) - d.day) as nat;
    let last = DateView { day: days_in_month(d.year, d.month), ..d };
    lemma_days_later_in_month(d, rest);
    assert(days_later(d, rest) == last);
    let over = (k - rest - 1) as nat;
    assert(rest + (1 + over) == k);
    lemma_days_later_add(d, rest, 1 + over);
    assert(days_later(last, 1 + over) == days_later(day_after(last), over));
    assert(day_after(last) == next_month_start(d));
    lemma_days_later_in_month(next_month_start(d), over);
}

/// Of two dates that lie so many days after the same date, the one that
/// lies fewer days after it is the earlier one.
pub proof fn lemma_days_later_order(d: DateView, a: nat, b: nat)
    requires
        is_month_day(d),
        a < b,
    ensures
        date_before(days_later(d, a), days_later(d, b)),
{
    lemma_days_later_add(d, a, (b - a) as nat);
    if a > 0 {
        lemma_days_later_is_after(d, a);
    }
    lemma_days_later_is_after(days_later(d, a), (b - a) as nat);
}

/// Whether the three numbers are a time of day.
pub open spec fn is_time_of_day(hour: int, minuter: int, second: int) -> bool {
    0 <= hour < 24 && 0 <= minuter < 60 && 0 <= second < 60
}

/// The day of the week of a date, as the `time` crate computes it: 1 for
/// Monday up to 7 for Sunday.
pub uninterp spec fn iso_weekday(year: int, month: int, day: int) -> int;

/// The error of the `time` crate for a component that is out of range.
#[verifier::external_type_specification]
#[verifier::external_body]
pub struct ExComponentRange(time::error::ComponentRange);

/// A calendar date.
#[derive(Clone, Copy, Debug, PartialEq, Eq, Structural)]
pub struct Date {
    year: i32,
    month: u8,
    day: u8,
}

impl View for Date {
    type V = DateView;

    closed spec fn view(&self) -> DateView {
        DateView { year: self.year as int, month: self.month as int, day: self.day as int }
    }
}

/// `time::Date::from_calendar_date`, after `time::Month::try_from` on the
/// month's number: the date with these components where the calendar has it,
/// an error where it has not.
#[verifier::external_body]
fn time_calendar_date(year: i32, month: u8, day: u8) -> (r: Result<Date, time::error::ComponentRange>)
    ensures
        match r {
            Ok(d) => d@ == (DateView { year: year as int, month: month as int, day: day as int })
                && is_date(d@),
            Err(_) => !is_date(
                DateView { year: year as int, month: month as int, day: day as int },
            ),
        },
{
    let m = time::Month::try_from(month)?;
    let d = time::Date::from_calendar_date(year, m, day)?;
    Ok(Date { year: d.year(), month: d.month() as u8, day: d.day() })
}

/// `time::Date::replace_day`: the same month with another day, an error
/// where the month has no such day. A date that the calendar does not have
/// is an error, too.
#[verifier::external_body]
fn time_replace_day(date: &Date, day: u8) -> (r: Result<Date, time::error::ComponentRange>)
    ensures
        match r {
            Ok(d) => d@ == (DateView { day: day as int, ..date@ }) && is_date(d@),
            Err(_) => !is_date(date@) || !is_date(DateView { day: day as int, ..date@ }),
        },
{
    let m = time::Month::try_from(date.month)?;
    let d = time::Date::from_calendar_date(date.year, m, date.day)?.replace_day(day)?;
    Ok(Date { year: d.year(), month: d.month() as u8, day: d.day() })
}

/// `time::Date::replace_month`, after `time::Month::try_from` on the new
/// month's number: the same day in another month of the same year, an error
/// where that month has no such day or the number is no month. A date that
/// the calendar does not have is an error, too.
#[verifier::external_body]
fn time_replace_month(date: &Date, month: u8) -> (r: Result<Date, time::error::ComponentRange>)
    ensures
        match r {
            Ok(d) => d@ == (DateView { month: month as int, ..date@ }) && is_date(d@),
            Err(_) => !is_date(date@) || !is_date(DateView { month: month as int, ..date@ }),
        },
{
    let m = time::Month::try_from(date.month)?;
    let to = time::Month::try_from(month)?;
    let d = time::Date::from_calendar_date(date.year, m, date.day)?.replace_month(to)?;
    Ok(Date { year: d.year(), month: d.month() as u8, day: d.day() })
}

/// `time::Date::replace_year`: the same month and day in another year, an
/// error where the year is out of range or has no such day. A date that the
/// calendar does not have is an error, too.
#[verifier::external_body]
fn time_replace_year(date: &Date, year: i32) -> (r: Result<Date, time::error::ComponentRange>)
    ensures
        match r {
            Ok(d) => d@ == (DateView { year: year as int, ..date@ }) && is_date(d@),
            Err(_) => !is_date(date@) || !is_date(DateView { year: year as int, ..date@ }),
        },
{
    let m = time::Month::try_from(date.month)?;
    let d = time::Date::from_calendar_date(date.year, m, date.day)?.replace_year(year)?;
    Ok(Date { year: d.year(), month: d.month() as u8, day: d.day() })
}

/// `time::Date::checked_add` with a `time::Duration` of whole days: the date
/// that many days later, or `None` where it lies past the last year. A date
/// that the calendar does not have gives `None`, too.
#[verifier::external_body]
fn time_add_days(date: &Date, days: u8) -> (r: Option<Date>)
    ensures
        match r {
            Some(d) => d@ == days_later(date@, days as nat) && is_date(d@),
            None => !is_date(date@) || !is_date(days_later(date@, days as nat)),
        },
{
    let m = time::Month::try_from(date.month).ok()?;
    let d = time::Date::from_calendar_date(date.year, m, date.day).ok()?;
    let d = d.checked_add(time::Duration::days(days as i64))?;
    Some(Date { year: d.year(), month: d.month() as u8, day: d.day() })
}

/// `time::Date::weekday` and `time::Weekday::number_from_monday`: the day of
/// the week of a date, 1 for Monday up to 7 for Sunday. The error is that of
/// a date that the calendar does not have.
#[verifier::external_body]
fn time_weekday(date: &Date) -> (r: Result<u8, time::error::ComponentRange>)
    ensures
        match r {
            Ok(n) => 1 <= n <= 7 && n == iso_weekday(date@.year, date@.month, date@.day),
            Err(_) => !is_date(date@),
        },
{
    let m = time::Month::try_from(date.month)?;
    let d = time::Date::from_calendar_date(date.year, m, date.day)?;
    Ok(d.weekday().number_from_monday())
}

impl Date {
    /// The calendar has this date and its year can be represented.
    pub open spec fn wf(&self) -> bool {
        is_date(self@)
    }

    /// The date with these components. Refused with `CalendarOverflow`
    /// where the calendar has no such date in the years that can be
    /// represented.
    pub fn new(year: i32, month: u8, day: u8) -> (r: Result<Date, SchedulerError>)
        ensures
            r matches Ok(d) ==> d.wf(),
            date_outcome(r) == checked_date(
                DateView { year: year as int, month: month as int, day: day as int },
            ),
    {
        match time_calendar_date(year, month, day) {
            Ok(d) => Ok(d),
            Err(_) => Err(SchedulerError::CalendarOverflow),
        }
    }

    /// The year.
    pub fn year(&self) -> (r: i32)
        ensures
            r == self@.year,
    {
        self.year
    }

    /// The month, 1 for January up to 12 for December.
    pub fn month(&self) -> (r: u8)
        ensures
            r == self@.month,
    {
        self.month
    }

    /// The day of the month.
    pub fn day(&self) -> (r: u8)
        ensures
            r == self@.day,
    {
        self.day
    }

    /// The same month with another day; `CalendarOverflow` where the month
    /// has no such day.
    pub fn replace_day(&self, day: u8) -> (r: Result<Date, SchedulerError>)
        requires
            self.wf(),
        ensures
            r matches Ok(d) ==> d.wf(),
            date_outcome(r) == checked_date(DateView { day: day as int, ..self@ }),
    {
        match time_replace_day(self, day) {
            Ok(d) => Ok(d),
            Err(_) => Err(SchedulerError::CalendarOverflow),
        }
    }

    /// The same day in another month of the same year; `CalendarOverflow`
    /// where that month has no such day, or the number is no month.
    pub fn replace_month(&self, month: u8) -> (r: Result<Date, SchedulerError>)
        requires
            self.wf(),
        ensures
            r matches Ok(d) ==> d.wf(),
            date_outcome(r) == checked_date(DateView { month: month as int, ..self@ }),
    {
        match time_replace_month(self, month) {
            Ok(d) => Ok(d),
            Err(_) => Err(SchedulerError::CalendarOverflow),
        }
    }

    /// The same month and day in another year; `CalendarOverflow` where the
    /// year cannot be represented or has no such day.
    pub fn replace_year(&self, year: i32) -> (r: Result<Date, SchedulerError>)
        requires
            self.wf(),
        ensures
            r matches Ok(d) ==> d.wf(),
            date_outcome(r) == checked_date(DateView { year: year as int, ..self@ }),
    {
        match time_replace_year(self, year) {
            Ok(d) => Ok(d),
            Err(_) => Err(SchedulerError::CalendarOverflow),
        }
    }

    /// The same month and day so many years later; `CalendarOverflow` where
    /// that year cannot be represented or has no such day.
    pub fn years_later(&self, years: u16) -> (r: Result<Date, SchedulerError>)
        requires
            self.wf(),
        ensures
            r matches Ok(d) ==> d.wf(),
            date_outcome(r) == checked_date(DateView { year: self@.year + years, ..self@ }),
    {
        self.replace_year(self.year + years as i32)
    }

    /// The first day of the next month, which in December is the first of
    /// January of the next year; `CalendarOverflow` past the last year.
    pub fn next_month(&self) -> (r: Result<Date, SchedulerError>)
        requires
            self.wf(),
        ensures
            r matches Ok(d) ==> d.wf(),
            date_outcome(r) == checked_date(next_month_start(self@)),
    {
        let first = self.replace_day(1)?;
        if self.month < 12 {
            first.replace_month(self.month + 1)
        } else {
            let january = first.replace_month(1)?;
            january.replace_year(self.year + 1)
        }
    }

    /// The date `days` days later; `CalendarOverflow` past the last year.
    pub fn add_days(&self, days: u8) -> (r: Result<Date, SchedulerError>)
        requires
            self.wf(),
        ensures
            r matches Ok(d) ==> d.wf(),
            date_outcome(r) == checked_date(days_later(self@, days as nat)),
    {
        match time_add_days(self, days) {
            Some(d) => Ok(d),
            None => Err(SchedulerError::CalendarOverflow),
        }
    }

    /// The day of the week: 1 for Monday up to 7 for Sunday.
    pub fn week_day(&self) -> (r: u8)
        requires
            self.wf(),
        ensures
            1 <= r <= 7,
            r == iso_weekday(self@.year, self@.month, self@.day),
    {
        match time_weekday(self) {
            Ok(n) => n,
            Err(_) => unreached(),
        }
    }

    /// Whether this date is earlier than `other`.
    pub fn is_before(&self, other: &Date) -> (r: bool)
        ensures
            r == date_before(self@, other@),
    {
        if self.year != other.year {
            self.year < other.year
        } else if self.month != other.month {
            self.month < other.month
        } else {
            self.day < other.day
        }
    }
}

/// `time::OffsetDateTime::now_utc` and its getters: the clock's reading in
/// UTC, as year, month, day, hour, minute and second. Nothing is promised of
/// the reading.
#[verifier::external_body]
fn time_now_utc() -> (r: (i32, u8, u8, u8, u8, u8)) {
    let t = time::OffsetDateTime::now_utc();
    (t.year(), t.month() as u8, t.day(), t.hour(), t.minute(), t.second())
}

/// `time::OffsetDateTime::now_local` and its getters: the clock's reading at
/// the local offset, or `None` where the offset cannot be found out. Nothing
/// is promised of the reading.
#[verifier::external_body]
fn time_now_local() -> (r: Option<(i32, u8, u8, u8, u8, u8)>) {
    let t = time::OffsetDateTime::now_local().ok()?;
    Some((t.year(), t.month() as u8, t.day(), t.hour(), t.minute(), t.second()))
}

/// The instant that six numbers describe, in the model: refused with
/// `OutOfRange` where the last three are no time of day, with
/// `CalendarOverflow` where the first three are no date. The day of the week
/// is that of the date.
pub open spec fn spec_date_time(
    year: int,
    month: int,
    day: int,
    hour: int,
    minuter: int,
    second: int,
) -> Result<DateTimeView, SchedulerError> {
    let date = DateView { year, month, day };
    if !is_time_of_day(hour, minuter, second) {
        Err(SchedulerError::OutOfRange)
    } else if !is_date(date) {
        Err(SchedulerError::CalendarOverflow)
    } else {
        Ok(DateTimeView { date, week_day: iso_weekday(year, month, day), hour, minuter, second })
    }
}

/// An instant as a clock shows it: the date, its day of the week, and the
/// time of day to the second.
#[derive(Clone, Copy, Debug, PartialEq, Eq, Structural)]
pub struct DateTime {
    date: Date,
    week_day: u8,
    hour: u8,
    minuter: u8,
    second: u8,
}

impl View for DateTime {
    type V = DateTimeView;

    closed spec fn view(&self) -> DateTimeView {
        DateTimeView {
            date: self.date@,
            week_day: self.week_day as int,
            hour: self.hour as int,
            minuter: self.minuter as int,
            second: self.second as int,
        }
    }
}

/// What holds of every instant: a date of the calendar, a day of the week in
/// `1..=7`, and a time of day.
pub open spec fn is_date_time(t: DateTimeView) -> bool {
    &&& is_date(t.date)
    &&& 1 <= t.week_day <= 7
    &&& is_time_of_day(t.hour, t.minuter, t.second)
}

impl DateTime {
    /// A date of the calendar, a day of the week, and a time of day.
    pub open spec fn wf(&self) -> bool {
        is_date_time(self@)
    }

    /// The instant with these components; its day of the week is computed
    /// from the date.
    pub fn new(year: i32, month: u8, day: u8, hour: u8, minuter: u8, second: u8) -> (r: Result<
        DateTime,
        SchedulerError,
    >)
        ensures
            r matches Ok(t) ==> t.wf(),
            date_time_outcome(r) == spec_date_time(
                year as int,
                month as int,
                day as int,
                hour as int,
                minuter as int,
                second as int,
            ),
    {
        if hour >= 24 || minuter >= 60 || second >= 60 {
            return Err(SchedulerError::OutOfRange);
        }
        match Date::new(year, month, day) {
            Ok(date) => DateTime::at(date, hour, minuter, second),
            Err(e) => Err(e),
        }
    }

    /// The instant at a time of day on a given date; `OutOfRange` where the
    /// three numbers are no time of day.
    pub fn at(date: Date, hour: u8, minuter: u8, second: u8) -> (r: Result<
        DateTime,
        SchedulerError,
    >)
        requires
            date.wf(),
        ensures
            r matches Ok(t) ==> t.wf(),
            date_time_outcome(r) == spec_date_time(
                date@.year,
                date@.month,
                date@.day,
                hour as int,
                minuter as int,
                second as int,
            ),
    {
        if hour >= 24 || minuter >= 60 || second >= 60 {
            return Err(SchedulerError::OutOfRange);
        }
        let week_day = date.week_day();
        Ok(DateTime { date, week_day, hour, minuter, second })
    }

    /// The clock's reading in UTC, or `None` where it is no instant that can
    /// be represented.
    pub fn now_utc() -> (r: Option<DateTime>)
        ensures
            r matches Some(t) ==> t.wf(),
    {
        let (year, month, day, hour, minuter, second) = time_now_utc();
        match DateTime::new(year, month, day, hour, minuter, second) {
            Ok(t) => Some(t),
            Err(_) => None,
        }
    }

    /// The clock's reading at the local offset, or `None` where the offset
    /// cannot be found out or the reading is no instant that can be
    /// represented.
    pub fn now_local() -> (r: Option<DateTime>)
        ensures
            r matches Some(t) ==> t.wf(),
    {
        match time_now_local() {
            Some((year, month, day, hour, minuter, second)) => {
                match DateTime::new(year, month, day, hour, minuter, second) {
                    Ok(t) => Some(t),
                    Err(_) => None,
                }
            },
            None => None,
        }
    }

    /// The date.
    pub fn date(&self) -> (r: Date)
        ensures
            r@ == self@.date,
    {
        self.date
    }

    /// The day of the month.
    pub fn month_day(&self) -> (r: u8)
        ensures
            r == self@.date.day,
    {
        self.date.day()
    }

    /// The day of the week: 1 for Monday up to 7 for Sunday.
    pub fn week_day(&self) -> (r: u8)
        ensures
            r == self@.week_day,
    {
        self.week_day
    }

    /// The hour of the day.
    pub fn hour(&self) -> (r: u8)
        ensures
            r == self@.hour,
    {
        self.hour
    }

    /// The minute of the hour.
    pub fn minuter(&self) -> (r: u8)
        ensures
            r == self@.minuter,
    {
        self.minuter
    }

    /// The second of the minute.
    pub fn second(&self) -> (r: u8)
        ensures
            r == self@.second,
    {
        self.second
    }

    /// Whether this instant is earlier than `other`.
    pub fn is_before(&self, other: &DateTime) -> (r: bool)
        ensures
            r == instant_before(self@, other@),
    {
        if self.date != other.date {
            self.date.is_before(&other.date)
        } else if self.hour != other.hour {
            self.hour < other.hour
        } else if self.minuter != other.minuter {
            self.minuter < other.minuter
        } else {
            self.second < other.second
        }
    }
}

/// How date arithmetic ended, in the model.
pub open spec fn date_outcome(r: Result<Date, SchedulerError>) -> Result<DateView, SchedulerError> {
    match r {
        Ok(d) => Ok(d@),
        Err(e) => Err(e),
    }
}

/// How the making of an instant ended, in the model.
pub open spec fn date_time_outcome(r: Result<DateTime, SchedulerError>) -> Result<
    DateTimeView,
    SchedulerError,
> {
    match r {
        Ok(t) => Ok(t@),
        Err(e) => Err(e),
    }
}

} // verus!
