//! The recurrence: which days, hours, minutes and seconds are allowed, and
//! the next instant after a given one that they allow.
//!
//! A recurrence is put together in stages, days first, then hours, minutes
//! and seconds, each stage from a finalized field set. Once built it never
//! changes.

use vstd::prelude::*;
use crate::calendar::{
    date_time_outcome, instant_before, is_date_time, iso_weekday, Date, DateTime, DateTimeView,
};
use crate::days::{
    earlier_date, Days, is_days, lemma_candidate_date_is_not_before, spec_contains_day,
    spec_next_candidate_date, DaysView,
};
use crate::error::SchedulerError;
use crate::field::{Hours, Minuters, MonthDays, Operator, Seconds, WeekDays};
use crate::sets::{
    after, lemma_minimum_exists, lemma_next_after_some, minimum, next_after, nonempty,
    valid_members,
};

verus! {

/// How one field of the next instant is found.
#[derive(Clone, Copy, Debug, PartialEq, Eq, Structural)]
pub enum Possible {
    /// The least allowed value.
    Min,
    /// The value that the field has now.
    Oneself,
    /// The least allowed value greater than the one it has now; where there
    /// is none, the least allowed value, and the next coarser field moves on.
    Next,
}

/// The value of a field of the next instant, and whether the next coarser
/// field has to move on.
pub open spec fn spec_get_val(possible: Possible, s: Set<int>, oneself: int) -> (int, bool) {
    match possible {
        Possible::Min => (minimum(s), false),
        Possible::Oneself => (oneself, false),
        Possible::Next => match next_after(s, oneself) {
            Some(n) => (n, false),
            None => (minimum(s), true),
        },
    }
}

/// How day, hour, minute and second are to be found, going by which of the
/// coarser fields are allowed as they are now: the finest field whose
/// coarser fields are all allowed moves on, the fields below it start from
/// their least value, the fields above it stay.
pub open spec fn spec_possibles(day_self: bool, hour_self: bool, minuter_self: bool) -> (
    Possible,
    Possible,
    Possible,
    Possible,
) {
    if !day_self {
        (Possible::Next, Possible::Min, Possible::Min, Possible::Min)
    } else if !hour_self {
        (Possible::Oneself, Possible::Next, Possible::Min, Possible::Min)
    } else if !minuter_self {
        (Possible::Oneself, Possible::Oneself, Possible::Next, Possible::Min)
    } else {
        (Possible::Oneself, Possible::Oneself, Possible::Oneself, Possible::Next)
    }
}

/// A field moves on where the next finer field has carried over.
pub open spec fn escalate(possible: Possible, carried: bool) -> Possible {
    if carried {
        Possible::Next
    } else {
        possible
    }
}

/// A recurrence in the model.
pub struct ConfView {
    pub days: DaysView,
    pub hours: Set<int>,
    pub minuters: Set<int>,
    pub seconds: Set<int>,
}

/// What holds of every recurrence: each of its sets is a valid set of its
/// field, and at least one set of days is there.
pub open spec fn is_conf(c: ConfView) -> bool {
    &&& is_days(c.days)
    &&& valid_members(c.hours, 0, 23)
    &&& valid_members(c.minuters, 0, 59)
    &&& valid_members(c.seconds, 0, 59)
}

/// The time of day of the next instant, and whether its date has to lie
/// after today. The fields are settled from the finest to the coarsest, each
/// one moving on where the one before it has carried over.
pub open spec fn spec_next_time(c: ConfView, now: DateTimeView) -> (int, int, int, bool) {
    let possibles = spec_possibles(
        spec_contains_day(c.days, now.date.day, now.week_day),
        c.hours.contains(now.hour),
        c.minuters.contains(now.minuter),
    );
    let second = spec_get_val(possibles.3, c.seconds, now.second);
    let minuter = spec_get_val(escalate(possibles.2, second.1), c.minuters, now.minuter);
    let hour = spec_get_val(escalate(possibles.1, minuter.1), c.hours, now.hour);
    (hour.0, minuter.0, second.0, escalate(possibles.0, hour.1) == Possible::Next)
}

/// The next instant after `now` that the recurrence allows.
pub open spec fn spec_next(c: ConfView, now: DateTimeView) -> Result<DateTimeView, SchedulerError> {
    let time = spec_next_time(c, now);
    match spec_next_candidate_date(c.days, now.date, now.week_day, time.3) {
        Ok(d) => Ok(
            DateTimeView {
                date: d,
                week_day: iso_weekday(d.year, d.month, d.day),
                hour: time.0,
                minuter: time.1,
                second: time.2,
            },
        ),
        Err(e) => Err(e),
    }
}

/// A field that moves on without carrying over ends on a greater value; one
/// that stays keeps its value; only one that moves on can carry over.
pub proof fn lemma_get_val(possible: Possible, s: Set<int>, oneself: int)
    ensures
        ({
            let r = spec_get_val(possible, s, oneself);
            &&& possible == Possible::Next && !r.1 ==> r.0 > oneself && s.contains(r.0)
            &&& possible == Possible::Oneself ==> r.0 == oneself
            &&& possible != Possible::Next ==> !r.1
        }),
{
    if nonempty(after(s, oneself)) {
        lemma_next_after_some(s, oneself);
    }
}

/// Hour, minute and second of the next instant are allowed ones.
pub proof fn lemma_next_time_is_allowed(c: ConfView, now: DateTimeView)
    requires
        is_conf(c),
    ensures
        c.hours.contains(spec_next_time(c, now).0),
        c.minuters.contains(spec_next_time(c, now).1),
        c.seconds.contains(spec_next_time(c, now).2),
{
    let possibles = spec_possibles(
        spec_contains_day(c.days, now.date.day, now.week_day),
        c.hours.contains(now.hour),
        c.minuters.contains(now.minuter),
    );
    let second = spec_get_val(possibles.3, c.seconds, now.second);
    let minuter = spec_get_val(escalate(possibles.2, second.1), c.minuters, now.minuter);
    lemma_get_val_is_member(possibles.3, c.seconds, now.second, 0, 59);
    lemma_get_val_is_member(escalate(possibles.2, second.1), c.minuters, now.minuter, 0, 59);
    lemma_get_val_is_member(escalate(possibles.1, minuter.1), c.hours, now.hour, 0, 23);
}

/// A field that does not stay as it is ends on a member of its set.
pub proof fn lemma_get_val_is_member(possible: Possible, s: Set<int>, oneself: int, lo: int, hi: int)
    requires
        valid_members(s, lo, hi),
    ensures
        possible != Possible::Oneself ==> s.contains(spec_get_val(possible, s, oneself).0),
{
    lemma_minimum_exists(s, lo);
    if nonempty(after(s, oneself)) {
        lemma_next_after_some(s, oneself);
    }
}

/// The next instant is later than the one it was asked for.
pub proof fn lemma_next_is_later(c: ConfView, now: DateTimeView)
    requires
        is_conf(c),
        is_date_time(now),
        spec_next(c, now) is Ok,
    ensures
        instant_before(now, spec_next(c, now).unwrap()),
{
    let possibles = spec_possibles(
        spec_contains_day(c.days, now.date.day, now.week_day),
        c.hours.contains(now.hour),
        c.minuters.contains(now.minuter),
    );
    let second = spec_get_val(possibles.3, c.seconds, now.second);
    let minuter = spec_get_val(escalate(possibles.2, second.1), c.minuters, now.minuter);
    let hour = spec_get_val(escalate(possibles.1, minuter.1), c.hours, now.hour);
    lemma_get_val(possibles.3, c.seconds, now.second);
    lemma_get_val(escalate(possibles.2, second.1), c.minuters, now.minuter);
    lemma_get_val(escalate(possibles.1, minuter.1), c.hours, now.hour);
    let time = spec_next_time(c, now);
    lemma_candidate_date_is_not_before(c.days, now.date, now.week_day, time.3);
}

/// The search for the next instant fails for one reason only: the calendar
/// has no such date. An empty set never shows up here; it was refused when
/// the sets were made.
pub proof fn lemma_next_fails_only_on_overflow(c: ConfView, now: DateTimeView)
    requires
        is_conf(c),
        spec_next(c, now) is Err,
    ensures
        spec_next(c, now) == Err::<DateTimeView, SchedulerError>(SchedulerError::CalendarOverflow),
{
}

/// Asked again at or after an instant that it gave, the recurrence gives a
/// later one: the instants that come out of it one after the other ascend.
pub proof fn lemma_next_ascends(c: ConfView, now: DateTimeView, again: DateTimeView)
    requires
        is_conf(c),
        is_date_time(now),
        is_date_time(again),
        spec_next(c, now) is Ok,
        spec_next(c, again) is Ok,
        !instant_before(again, spec_next(c, now).unwrap()),
    ensures
        instant_before(now, spec_next(c, now).unwrap()),
        instant_before(spec_next(c, now).unwrap(), spec_next(c, again).unwrap()),
{
    lemma_next_is_later(c, now);
    lemma_next_is_later(c, again);
}

/// Whether the recurrence allows an instant: its day, by the day of the
/// month or by the day of the week, and its hour, its minute and its second.
pub open spec fn spec_allows(c: ConfView, t: DateTimeView) -> bool {
    &&& spec_contains_day(c.days, t.date.day, t.week_day)
    &&& c.hours.contains(t.hour)
    &&& c.minuters.contains(t.minuter)
    &&& c.seconds.contains(t.second)
}

/// The value of one field of the next instant, and whether the next coarser
/// field has to move on.
pub fn get_val<D: Operator>(possible: Possible, d: &D, oneself: u8) -> (r: (u8, bool))
    requires
        d.wf(),
    ensures
        (r.0 as int, r.1) == spec_get_val(possible, d@, oneself as int),
        possible != Possible::Oneself ==> d@.contains(r.0 as int) && D::spec_min() <= r.0
            <= D::spec_max(),
        r.1 ==> possible == Possible::Next,
{
    let mut re_count = false;
    let data = match possible {
        Possible::Min => d.min_val(),
        Possible::Oneself => oneself,
        Possible::Next => {
            if let Some(data) = d.next(oneself) {
                data
            } else {
                re_count = true;
                d.min_val()
            }
        },
    };
    (data, re_count)
}

/// How day, hour, minute and second are to be found.
pub fn possibles(day_self: bool, hour_self: bool, minuter_self: bool) -> (r: (
    Possible,
    Possible,
    Possible,
    Possible,
))
    ensures
        r == spec_possibles(day_self, hour_self, minuter_self),
{
    if day_self {
        if hour_self {
            if minuter_self {
                (Possible::Oneself, Possible::Oneself, Possible::Oneself, Possible::Next)
            } else {
                (Possible::Oneself, Possible::Oneself, Possible::Next, Possible::Min)
            }
        } else {
            (Possible::Oneself, Possible::Next, Possible::Min, Possible::Min)
        }
    } else {
        (Possible::Next, Possible::Min, Possible::Min, Possible::Min)
    }
}

/// The first stage: the days.
#[derive(Clone, Copy, Debug)]
pub struct DayConfBuilder {
    month_days: Option<MonthDays>,
    week_days: Option<WeekDays>,
}

/// The model of two optional sets of days.
pub open spec fn days_view(month_days: Option<MonthDays>, week_days: Option<WeekDays>) -> DaysView {
    DaysView {
        month_days: match month_days {
            Some(s) => Some(s@),
            None => None,
        },
        week_days: match week_days {
            Some(s) => Some(s@),
            None => None,
        },
    }
}

impl View for DayConfBuilder {
    type V = DaysView;

    closed spec fn view(&self) -> DaysView {
        days_view(self.month_days, self.week_days)
    }
}

impl From<MonthDays> for DayConfBuilder {
    fn from(days: MonthDays) -> (r: Self) {
        Self { month_days: Some(days), week_days: None }
    }
}

impl vstd::std_specs::convert::FromSpecImpl<MonthDays> for DayConfBuilder {
    open spec fn obeys_from_spec() -> bool {
        true
    }

    closed spec fn from_spec(days: MonthDays) -> Self {
        Self { month_days: Some(days), week_days: None }
    }
}

impl From<WeekDays> for DayConfBuilder {
    fn from(days: WeekDays) -> (r: Self) {
        Self { month_days: None, week_days: Some(days) }
    }
}

impl vstd::std_specs::convert::FromSpecImpl<WeekDays> for DayConfBuilder {
    open spec fn obeys_from_spec() -> bool {
        true
    }

    closed spec fn from_spec(days: WeekDays) -> Self {
        Self { month_days: None, week_days: Some(days) }
    }
}

impl DayConfBuilder {
    /// At least one set of days is there, and each one that is there is valid.
    pub open spec fn wf(&self) -> bool {
        is_days(self@)
    }

    /// The days that come of a set of days of the month are that set alone.
    pub proof fn lemma_from_month_days(days: MonthDays)
        ensures
            <Self as vstd::std_specs::convert::FromSpec<MonthDays>>::from_spec(days)@ == (DaysView {
                month_days: Some(days@),
                week_days: None,
            }),
    {
    }

    /// The days that come of a set of days of the week are that set alone.
    pub proof fn lemma_from_week_days(days: WeekDays)
        ensures
            <Self as vstd::std_specs::convert::FromSpec<WeekDays>>::from_spec(days)@ == (DaysView {
                month_days: None,
                week_days: Some(days@),
            }),
    {
    }

    /// Days of the month only.
    pub fn default_month_days(month_days: MonthDays) -> (r: Self)
        requires
            month_days.wf(),
        ensures
            r.wf(),
            r@ == (DaysView { month_days: Some(month_days@), week_days: None }),
    {
        Self { month_days: Some(month_days), week_days: None }
    }

    /// Days of the week only.
    pub fn default_week_days(week_days: WeekDays) -> (r: Self)
        requires
            week_days.wf(),
        ensures
            r.wf(),
            r@ == (DaysView { month_days: None, week_days: Some(week_days@) }),
    {
        Self { month_days: None, week_days: Some(week_days) }
    }

    /// The same days, with these days of the month in place of any that
    /// were there.
    pub fn with_month_days(self, month_days: MonthDays) -> (r: Self)
        requires
            self.wf(),
            month_days.wf(),
        ensures
            r.wf(),
            r@ == (DaysView { month_days: Some(month_days@), ..self@ }),
    {
        Self { month_days: Some(month_days), week_days: self.week_days }
    }

    /// The same days, with these days of the week in place of any that were
    /// there.
    pub fn with_week_days(self, week_days: WeekDays) -> (r: Self)
        requires
            self.wf(),
            week_days.wf(),
        ensures
            r.wf(),
            r@ == (DaysView { week_days: Some(week_days@), ..self@ }),
    {
        Self { month_days: self.month_days, week_days: Some(week_days) }
    }

    /// The second stage, with these hours.
    pub fn build_with_hours(self, hours: Hours) -> (r: DayHourConfBuilder)
        requires
            self.wf(),
            hours.wf(),
        ensures
            r.wf(),
            r.days() == self@,
            r.hours() == hours@,
    {
        DayHourConfBuilder { month_days: self.month_days, week_days: self.week_days, hours }
    }
}

/// The second stage: days and hours.
#[derive(Clone, Copy, Debug)]
pub struct DayHourConfBuilder {
    month_days: Option<MonthDays>,
    week_days: Option<WeekDays>,
    hours: Hours,
}

impl DayHourConfBuilder {
    /// The days, in the model.
    pub closed spec fn days(&self) -> DaysView {
        days_view(self.month_days, self.week_days)
    }

    /// The hours, in the model.
    pub closed spec fn hours(&self) -> Set<int> {
        self.hours@
    }

    /// Days and hours are valid.
    pub open spec fn wf(&self) -> bool {
        is_days(self.days()) && valid_members(self.hours(), 0, 23)
    }

    /// The third stage, with these minutes.
    pub fn build_with_minuter_builder(self, minuters: Minuters) -> (r: DayHourMinuterConfBuilder)
        requires
            self.wf(),
            minuters.wf(),
        ensures
            r.wf(),
            r.days() == self.days(),
            r.hours() == self.hours(),
            r.minuters() == minuters@,
    {
        DayHourMinuterConfBuilder {
            month_days: self.month_days,
            week_days: self.week_days,
            hours: self.hours,
            minuters,
        }
    }
}

/// The third stage: days, hours and minutes.
#[derive(Clone, Copy, Debug)]
pub struct DayHourMinuterConfBuilder {
    month_days: Option<MonthDays>,
    week_days: Option<WeekDays>,
    hours: Hours,
    minuters: Minuters,
}

impl DayHourMinuterConfBuilder {
    /// The days, in the model.
    pub closed spec fn days(&self) -> DaysView {
        days_view(self.month_days, self.week_days)
    }

    /// The hours, in the model.
    pub closed spec fn hours(&self) -> Set<int> {
        self.hours@
    }

    /// The minutes, in the model.
    pub closed spec fn minuters(&self) -> Set<int> {
        self.minuters@
    }

    /// Days, hours and minutes are valid.
    pub open spec fn wf(&self) -> bool {
        &&& is_days(self.days())
        &&& valid_members(self.hours(), 0, 23)
        &&& valid_members(self.minuters(), 0, 59)
    }

    /// The recurrence, with these seconds.
    pub fn build_with_second_builder(self, seconds: Seconds) -> (r: DayHourMinuterSecondConf)
        requires
            self.wf(),
            seconds.wf(),
        ensures
            r.wf(),
            r@ == (ConfView {
                days: self.days(),
                hours: self.hours(),
                minuters: self.minuters(),
                seconds: seconds@,
            }),
    {
        DayHourMinuterSecondConf {
            month_days: self.month_days,
            week_days: self.week_days,
            hours: self.hours,
            minuters: self.minuters,
            seconds,
        }
    }
}

/// A recurrence: the allowed days, hours, minutes and seconds.
#[derive(Clone, Copy, Debug)]
pub struct DayHourMinuterSecondConf {
    month_days: Option<MonthDays>,
    week_days: Option<WeekDays>,
    hours: Hours,
    minuters: Minuters,
    seconds: Seconds,
}

impl View for DayHourMinuterSecondConf {
    type V = ConfView;

    closed spec fn view(&self) -> ConfView {
        ConfView {
            days: days_view(self.month_days, self.week_days),
            hours: self.hours@,
            minuters: self.minuters@,
            seconds: self.seconds@,
        }
    }
}

impl DayHourMinuterSecondConf {
    /// Every set is a valid set of its field, and at least one set of days
    /// is there.
    pub open spec fn wf(&self) -> bool {
        is_conf(self@)
    }

    /// The recurrence with one set of days, of either kind.
    pub fn with_days(days: Days, hours: Hours, minuters: Minuters, seconds: Seconds) -> (r: Self)
        requires
            days.wf(),
            hours.wf(),
            minuters.wf(),
            seconds.wf(),
        ensures
            r.wf(),
            r@ == (ConfView {
                days: days@,
                hours: hours@,
                minuters: minuters@,
                seconds: seconds@,
            }),
    {
        match days {
            Days::MonthDay(d) => Self {
                month_days: Some(d),
                week_days: None,
                hours,
                minuters,
                seconds,
            },
            Days::WeekDay(d) => Self {
                month_days: None,
                week_days: Some(d),
                hours,
                minuters,
                seconds,
            },
        }
    }

    /// The allowed days of the month, where the recurrence goes by them.
    pub fn month_days(&self) -> (r: Option<MonthDays>)
        requires
            self.wf(),
        ensures
            days_view(r, None).month_days == self@.days.month_days,
            r matches Some(s) ==> s.wf(),
    {
        self.month_days
    }

    /// The allowed days of the week, where the recurrence goes by them.
    pub fn week_days(&self) -> (r: Option<WeekDays>)
        requires
            self.wf(),
        ensures
            days_view(None, r).week_days == self@.days.week_days,
            r matches Some(s) ==> s.wf(),
    {
        self.week_days
    }

    /// The allowed hours.
    pub fn hours(&self) -> (r: Hours)
        requires
            self.wf(),
        ensures
            r.wf(),
            r@ == self@.hours,
    {
        self.hours
    }

    /// The allowed minutes.
    pub fn minuters(&self) -> (r: Minuters)
        requires
            self.wf(),
        ensures
            r.wf(),
            r@ == self@.minuters,
    {
        self.minuters
    }

    /// The allowed seconds.
    pub fn seconds(&self) -> (r: Seconds)
        requires
            self.wf(),
        ensures
            r.wf(),
            r@ == self@.seconds,
    {
        self.seconds
    }

    /// Whether the recurrence allows the instant `at`.
    pub fn allows(&self, at: &DateTime) -> (r: bool)
        requires
            self.wf(),
        ensures
            r == spec_allows(self@, at@),
    {
        self.contains_day(at.month_day(), at.week_day()) && self.hours.contain(at.hour())
            && self.minuters.contain(at.minuter()) && self.seconds.contain(at.second())
    }

    /// Whether a day is allowed: its day of the month by the days of the
    /// month, or its day of the week by the days of the week.
    pub fn contains_day(&self, day_of_month: u8, day_of_week: u8) -> (r: bool)
        requires
            self.wf(),
        ensures
            r == spec_contains_day(self@.days, day_of_month as int, day_of_week as int),
    {
        let by_month = match &self.month_days {
            Some(s) => s.contain(day_of_month),
            None => false,
        };
        let by_week = match &self.week_days {
            Some(s) => s.contain(day_of_week),
            None => false,
        };
        by_month || by_week
    }

    /// The date of the next instant: the date of `reference` where that day
    /// is allowed and no rollover is asked for, else the earliest allowed date
    /// after it.
    pub fn next_candidate_date(&self, reference: &DateTime, rollover_requested: bool) -> (r: Result<
        Date,
        SchedulerError,
    >)
        requires
            self.wf(),
            reference.wf(),
        ensures
            r matches Ok(d) ==> d.wf(),
            crate::calendar::date_outcome(r) == spec_next_candidate_date(
                self@.days,
                reference@.date,
                reference@.week_day,
                rollover_requested,
            ),
    {
        let date = reference.date();
        let week_day = reference.week_day();
        if !rollover_requested && self.contains_day(reference.month_day(), week_day) {
            return Ok(date);
        }
        match (&self.month_days, &self.week_days) {
            (Some(m), Some(w)) => {
                let by_month = m.next_date(&date);
                let by_week = w.next_date(&date, week_day);
                match (by_month, by_week) {
                    (Ok(a), Ok(b)) => Ok(earlier_date(a, b)),
                    _ => Err(SchedulerError::CalendarOverflow),
                }
            },
            (Some(m), None) => m.next_date(&date),
            (None, Some(w)) => w.next_date(&date, week_day),
            (None, None) => Err(SchedulerError::EmptySet),
        }
    }

    /// The next instant after `now` that the recurrence allows: the earliest
    /// one, as [`crate::earliest`] shows. It is refused with
    /// `CalendarOverflow` where the search comes upon a date that the
    /// calendar does not have: a day of the month past the end of its month,
    /// or a day past the last year.
    pub fn next(&self, now: &DateTime) -> (r: Result<DateTime, SchedulerError>)
        requires
            self.wf(),
            now.wf(),
        ensures
            r matches Ok(t) ==> t.wf() && instant_before(now@, t@),
            r matches Err(e) ==> e == SchedulerError::CalendarOverflow,
            date_time_outcome(r) == spec_next(self@, now@),
    {
        proof {
            if spec_next(self@, now@) is Ok {
                lemma_next_is_later(self@, now@);
            } else {
                lemma_next_fails_only_on_overflow(self@, now@);
            }
        }
        let day_self = self.contains_day(now.month_day(), now.week_day());
        let hour_self = self.hours.contain(now.hour());
        let minuter_self = self.minuters.contain(now.minuter());
        let (day_possible, hour_possible, minuter_possible, second_possible) = possibles(
            day_self,
            hour_self,
            minuter_self,
        );
        let (second, second_recount) = get_val(second_possible, &self.seconds, now.second());
        let minuter_possible = if second_recount {
            Possible::Next
        } else {
            minuter_possible
        };
        let (minuter, minuter_recount) = get_val(minuter_possible, &self.minuters, now.minuter());
        let hour_possible = if minuter_recount {
            Possible::Next
        } else {
            hour_possible
        };
        let (hour, hour_recount) = get_val(hour_possible, &self.hours, now.hour());
        let day_possible = if hour_recount {
            Possible::Next
        } else {
            day_possible
        };
        let rollover = match day_possible {
            Possible::Next => true,
            _ => false,
        };
        let date = self.next_candidate_date(now, rollover)?;
        DateTime::at(date, hour, minuter, second)
    }
}

} // verus!
