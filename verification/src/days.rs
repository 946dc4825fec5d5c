//! Choosing the day: the earliest date that a set of days of the month, or a
//! set of days of the week, allows after a given date.
//!
//! A day of the month that the month does not have (the 31st in a month of
//! 30 days) is not skipped: the search ends with `CalendarOverflow`.

use vstd::prelude::*;
use crate::calendar::{
    checked_date, date_before, date_outcome, days_in_month, days_later, is_date,
    lemma_days_later_in_month, lemma_days_later_is_after, lemma_days_later_next_month,
    lemma_days_later_order, next_month_start, Date, DateView,
};
use crate::error::SchedulerError;
use crate::field::{MonthDays, Operator, WeekDays};
use crate::sets::{
    lemma_minimum_exists, lemma_next_after_some, minimum, next_after, nonempty, after,
    valid_members,
};

verus! {

/// One set of days, of either kind.
#[derive(Clone, Copy, Debug)]
pub enum Days {
    MonthDay(MonthDays),
    WeekDay(WeekDays),
}

impl Days {
    /// The set is a valid set of its field.
    pub open spec fn wf(&self) -> bool {
        match self {
            Days::MonthDay(d) => d.wf(),
            Days::WeekDay(d) => d.wf(),
        }
    }
}

impl View for Days {
    type V = DaysView;

    open spec fn view(&self) -> DaysView {
        match self {
            Days::MonthDay(d) => DaysView { month_days: Some(d@), week_days: None },
            Days::WeekDay(d) => DaysView { month_days: None, week_days: Some(d@) },
        }
    }
}

impl From<MonthDays> for Days {
    fn from(days: MonthDays) -> (r: Self) {
        Days::MonthDay(days)
    }
}

impl vstd::std_specs::convert::FromSpecImpl<MonthDays> for Days {
    open spec fn obeys_from_spec() -> bool {
        true
    }

    open spec fn from_spec(days: MonthDays) -> Self {
        Days::MonthDay(days)
    }
}

impl From<WeekDays> for Days {
    fn from(days: WeekDays) -> (r: Self) {
        Days::WeekDay(days)
    }
}

impl vstd::std_specs::convert::FromSpecImpl<WeekDays> for Days {
    open spec fn obeys_from_spec() -> bool {
        true
    }

    open spec fn from_spec(days: WeekDays) -> Self {
        Days::WeekDay(days)
    }
}

/// The days that a recurrence allows, in the model: days of the month, days
/// of the week, or both. With both, a day is allowed as soon as one of the
/// two sets allows it.
pub struct DaysView {
    pub month_days: Option<Set<int>>,
    pub week_days: Option<Set<int>>,
}

/// What holds of the days of every recurrence: at least one of the two sets
/// is there, and each one that is there is a valid set of its field.
pub open spec fn is_days(sel: DaysView) -> bool {
    &&& sel.month_days is Some || sel.week_days is Some
    &&& sel.month_days matches Some(s) ==> valid_members(s, 1, 31)
    &&& sel.week_days matches Some(s) ==> valid_members(s, 1, 7)
}

/// Whether a day is allowed: its day of the month by the one set, or its day
/// of the week by the other.
pub open spec fn spec_contains_day(sel: DaysView, day_of_month: int, day_of_week: int) -> bool {
    ||| sel.month_days matches Some(s) && s.contains(day_of_month)
    ||| sel.week_days matches Some(s) && s.contains(day_of_week)
}

/// The earliest date after `d` whose day of the month is in `s`: later in
/// the same month where `s` has a greater day, else in the next month on the
/// least day of `s`.
pub open spec fn month_day_candidate(s: Set<int>, d: DateView) -> Result<DateView, SchedulerError> {
    checked_date(
        match next_after(s, d.day) {
            Some(n) => DateView { day: n, ..d },
            None => DateView { day: minimum(s), ..next_month_start(d) },
        },
    )
}

/// How many days after a day of the week the next one in `s` comes: within
/// the same week where `s` has a greater day, else in the next week on the
/// least day of `s`.
pub open spec fn week_day_offset(s: Set<int>, week_day: int) -> int {
    match next_after(s, week_day) {
        Some(n) => n - week_day,
        None => 7 - week_day + minimum(s),
    }
}

/// The earliest date after `d` whose day of the week is in `s`, where `d`
/// falls on `week_day`.
pub open spec fn week_day_candidate(s: Set<int>, d: DateView, week_day: int) -> Result<
    DateView,
    SchedulerError,
> {
    checked_date(days_later(d, week_day_offset(s, week_day) as nat))
}

/// The earlier of two dates.
pub open spec fn earlier(a: DateView, b: DateView) -> DateView {
    if date_before(b, a) {
        b
    } else {
        a
    }
}

/// The date of the next instant. Where today is allowed and the time of day
/// has not carried over, it is today. Otherwise each set that is there gives
/// its earliest date after today, and the earlier of them counts. A date
/// that the calendar does not have ends the search with `CalendarOverflow`,
/// also where the other set would have given one.
pub open spec fn spec_next_candidate_date(
    sel: DaysView,
    d: DateView,
    week_day: int,
    rollover: bool,
) -> Result<DateView, SchedulerError> {
    if !rollover && spec_contains_day(sel, d.day, week_day) {
        Ok(d)
    } else {
        match (sel.month_days, sel.week_days) {
            (Some(m), Some(w)) => match (
                month_day_candidate(m, d),
                week_day_candidate(w, d, week_day),
            ) {
                (Ok(a), Ok(b)) => Ok(earlier(a, b)),
                _ => Err(SchedulerError::CalendarOverflow),
            },
            (Some(m), None) => month_day_candidate(m, d),
            (None, Some(w)) => week_day_candidate(w, d, week_day),
            (None, None) => Err(SchedulerError::EmptySet),
        }
    }
}

/// The day of the week that comes `k` days after a day of the week.
pub open spec fn week_day_after(week_day: int, k: int) -> int {
    (week_day - 1 + k) % 7 + 1
}

/// How many days after `d` the next day of the month in `s` comes, where the
/// calendar has that date.
pub open spec fn month_day_offset(s: Set<int>, d: DateView) -> int {
    match next_after(s, d.day) {
        Some(n) => n - d.day,
        None => days_in_month(d.year, d.month) - d.day + minimum(s),
    }
}

/// How many days after `d` the date of the next instant lies.
pub open spec fn spec_candidate_offset(sel: DaysView, d: DateView, week_day: int, rollover: bool) -> int {
    if !rollover && spec_contains_day(sel, d.day, week_day) {
        0
    } else {
        match (sel.month_days, sel.week_days) {
            (Some(m), Some(w)) => if week_day_offset(w, week_day) < month_day_offset(m, d) {
                week_day_offset(w, week_day)
            } else {
                month_day_offset(m, d)
            },
            (Some(m), None) => month_day_offset(m, d),
            (None, Some(w)) => week_day_offset(w, week_day),
            (None, None) => 0,
        }
    }
}

/// The date that a set of days of the month gives lies `month_day_offset`
/// days after the date it started from, and its day is in the set.
pub proof fn lemma_month_day_candidate_offset(s: Set<int>, d: DateView)
    requires
        valid_members(s, 1, 31),
        is_date(d),
        month_day_candidate(s, d) is Ok,
    ensures
        month_day_offset(s, d) >= 1,
        month_day_candidate(s, d).unwrap() == days_later(d, month_day_offset(s, d) as nat),
        s.contains(month_day_candidate(s, d).unwrap().day),
{
    lemma_minimum_exists(s, 1);
    if nonempty(after(s, d.day)) {
        lemma_next_after_some(s, d.day);
        lemma_days_later_in_month(d, month_day_offset(s, d) as nat);
    } else {
        lemma_days_later_next_month(d, month_day_offset(s, d) as nat);
    }
}

/// No date between the one that a search by days of the month started from
/// and the one that it gave has its day in the set.
pub proof fn lemma_month_day_none_before(s: Set<int>, d: DateView, k: int)
    requires
        valid_members(s, 1, 31),
        is_date(d),
        month_day_candidate(s, d) is Ok,
        0 < k < month_day_offset(s, d),
    ensures
        !s.contains(days_later(d, k as nat).day),
{
    lemma_minimum_exists(s, 1);
    if nonempty(after(s, d.day)) {
        lemma_next_after_some(s, d.day);
    }
    if d.day + k <= days_in_month(d.year, d.month) {
        lemma_days_later_in_month(d, k as nat);
        if s.contains(d.day + k) {
            assert(after(s, d.day).contains(d.day + k));
        }
    } else {
        lemma_days_later_next_month(d, k as nat);
    }
}

/// The day of the week that a search by days of the week ends on is in the
/// set.
pub proof fn lemma_week_day_offset_is_member(s: Set<int>, week_day: int)
    requires
        valid_members(s, 1, 7),
        1 <= week_day <= 7,
    ensures
        s.contains(week_day_after(week_day, week_day_offset(s, week_day))),
{
    lemma_minimum_exists(s, 1);
    if nonempty(after(s, week_day)) {
        lemma_next_after_some(s, week_day);
    }
}

/// No day of the week between the one that a search by days of the week
/// started from and the one that it ended on is in the set.
pub proof fn lemma_week_day_none_before(s: Set<int>, week_day: int, k: int)
    requires
        valid_members(s, 1, 7),
        1 <= week_day <= 7,
        0 < k < week_day_offset(s, week_day),
    ensures
        !s.contains(week_day_after(week_day, k)),
{
    lemma_minimum_exists(s, 1);
    let then = week_day_after(week_day, k);
    if nonempty(after(s, week_day)) {
        lemma_next_after_some(s, week_day);
        assert(then == week_day + k);
    } else if week_day + k <= 7 {
        assert(then == week_day + k);
        if s.contains(then) {
            assert(after(s, week_day).contains(then));
        }
    } else {
        assert(then == week_day + k - 7);
    }
}

/// The date of the next instant lies `spec_candidate_offset` days after the
/// date that the search started from, and that day is allowed.
pub proof fn lemma_candidate_offset(sel: DaysView, d: DateView, week_day: int, rollover: bool)
    requires
        is_days(sel),
        is_date(d),
        1 <= week_day <= 7,
        spec_next_candidate_date(sel, d, week_day, rollover) is Ok,
    ensures
        ({
            let k = spec_candidate_offset(sel, d, week_day, rollover);
            let c = spec_next_candidate_date(sel, d, week_day, rollover).unwrap();
            &&& k >= 0
            &&& rollover ==> k >= 1
            &&& c == days_later(d, k as nat)
            &&& spec_contains_day(sel, c.day, week_day_after(week_day, k))
        }),
{
    if !(!rollover && spec_contains_day(sel, d.day, week_day)) {
        match (sel.month_days, sel.week_days) {
            (Some(m), Some(w)) => {
                lemma_month_day_candidate_offset(m, d);
                lemma_week_day_offset(w, week_day);
                lemma_week_day_offset_is_member(w, week_day);
                let by_month = month_day_offset(m, d);
                let by_week = week_day_offset(w, week_day);
                if by_week < by_month {
                    lemma_days_later_order(d, by_week as nat, by_month as nat);
                } else if by_month < by_week {
                    lemma_days_later_order(d, by_month as nat, by_week as nat);
                }
            },
            (Some(m), None) => {
                lemma_month_day_candidate_offset(m, d);
            },
            (None, Some(w)) => {
                lemma_week_day_offset(w, week_day);
                lemma_week_day_offset_is_member(w, week_day);
            },
            (None, None) => {},
        }
    }
}

/// No day between the one that the search for the date of the next instant
/// started from and the one that it gave is allowed. Where no rollover was
/// asked for, this holds of the day it started from, too.
pub proof fn lemma_candidate_none_before(
    sel: DaysView,
    d: DateView,
    week_day: int,
    rollover: bool,
    k: int,
)
    requires
        is_days(sel),
        is_date(d),
        1 <= week_day <= 7,
        spec_next_candidate_date(sel, d, week_day, rollover) is Ok,
        0 <= k < spec_candidate_offset(sel, d, week_day, rollover),
        rollover ==> 0 < k,
    ensures
        !spec_contains_day(sel, days_later(d, k as nat).day, week_day_after(week_day, k)),
{
    if k == 0 {
        assert(days_later(d, 0) == d);
    } else {
        match sel.month_days {
            Some(m) => {
                lemma_month_day_none_before(m, d, k);
            },
            None => {},
        }
        match sel.week_days {
            Some(w) => {
                lemma_week_day_none_before(w, week_day, k);
            },
            None => {},
        }
    }
}

/// The date that a set of days of the month gives lies after the date it
/// started from.
pub proof fn lemma_month_day_candidate_is_after(s: Set<int>, d: DateView)
    requires
        valid_members(s, 1, 31),
        is_date(d),
        month_day_candidate(s, d) is Ok,
    ensures
        date_before(d, month_day_candidate(s, d).unwrap()),
{
    if nonempty(after(s, d.day)) {
        lemma_next_after_some(s, d.day);
    }
}

/// The next day of the week in a set comes one to thirteen days later.
pub proof fn lemma_week_day_offset(s: Set<int>, week_day: int)
    requires
        valid_members(s, 1, 7),
        1 <= week_day <= 7,
    ensures
        1 <= week_day_offset(s, week_day) <= 13,
{
    lemma_minimum_exists(s, 1);
    if nonempty(after(s, week_day)) {
        lemma_next_after_some(s, week_day);
    }
}

/// The date that a set of days of the week gives lies after the date it
/// started from.
pub proof fn lemma_week_day_candidate_is_after(s: Set<int>, d: DateView, week_day: int)
    requires
        valid_members(s, 1, 7),
        1 <= week_day <= 7,
        is_date(d),
        week_day_candidate(s, d, week_day) is Ok,
    ensures
        date_before(d, week_day_candidate(s, d, week_day).unwrap()),
{
    lemma_week_day_offset(s, week_day);
    lemma_days_later_is_after(d, week_day_offset(s, week_day) as nat);
}

/// The date of the next instant is never earlier than the date it started
/// from, and it is later wherever a rollover was asked for or that day is
/// not allowed.
pub proof fn lemma_candidate_date_is_not_before(
    sel: DaysView,
    d: DateView,
    week_day: int,
    rollover: bool,
)
    requires
        is_days(sel),
        is_date(d),
        1 <= week_day <= 7,
        spec_next_candidate_date(sel, d, week_day, rollover) is Ok,
    ensures
        ({
            let c = spec_next_candidate_date(sel, d, week_day, rollover).unwrap();
            if !rollover && spec_contains_day(sel, d.day, week_day) {
                c == d
            } else {
                date_before(d, c)
            }
        }),
{
    if !(!rollover && spec_contains_day(sel, d.day, week_day)) {
        match (sel.month_days, sel.week_days) {
            (Some(m), Some(w)) => {
                lemma_month_day_candidate_is_after(m, d);
                lemma_week_day_candidate_is_after(w, d, week_day);
            },
            (Some(m), None) => {
                lemma_month_day_candidate_is_after(m, d);
            },
            (None, Some(w)) => {
                lemma_week_day_candidate_is_after(w, d, week_day);
            },
            (None, None) => {},
        }
    }
}

impl MonthDays {
    /// The earliest date after `date` on one of these days of the month.
    pub fn next_date(&self, date: &Date) -> (r: Result<Date, SchedulerError>)
        requires
            self.wf(),
            date.wf(),
        ensures
            r matches Ok(d) ==> d.wf(),
            date_outcome(r) == month_day_candidate(self@, date@),
    {
        match self.next(date.day()) {
            Some(n) => date.replace_day(n),
            None => {
                let first = date.next_month()?;
                first.replace_day(self.min_val())
            },
        }
    }
}

impl WeekDays {
    /// The earliest date after `date` on one of these days of the week,
    /// where `date` falls on `week_day`.
    pub fn next_date(&self, date: &Date, week_day: u8) -> (r: Result<Date, SchedulerError>)
        requires
            self.wf(),
            date.wf(),
            1 <= week_day <= 7,
        ensures
            r matches Ok(d) ==> d.wf(),
            date_outcome(r) == week_day_candidate(self@, date@, week_day as int),
    {
        let offset = match self.next(week_day) {
            Some(n) => n - week_day,
            None => 7 - week_day + self.min_val(),
        };
        date.add_days(offset)
    }
}

/// The earlier of two dates.
pub fn earlier_date(a: Date, b: Date) -> (r: Date)
    ensures
        r@ == earlier(a@, b@),
        r == a || r == b,
{
    if b.is_before(&a) {
        b
    } else {
        a
    }
}

} // verus!
