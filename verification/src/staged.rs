//! A recurrence put together from builders: each stage takes the builder of
//! the next field and finalizes the one it was given before. A builder that
//! holds nothing is refused, with `EmptySet`, by the stage that finalizes it.

use vstd::prelude::*;
use crate::bound::Bound;
use crate::builder::{
    HoursBuilder, MinutersBuilder, MonthDaysBuilder, SecondsBuilder, WeekDaysBuilder,
};
use crate::conf::{is_conf, ConfView, DayHourMinuterSecondConf};
use crate::days::{Days, DaysView};
use crate::error::SchedulerError;
use crate::field::{outcome, Hours, Minuters, MonthDays, Operator, Seconds, WeekDays};
use crate::sets::{span, spec_add, spec_add_range, spec_finalize};

verus! {

/// The first stage, for a recurrence by days of the week.
#[derive(Clone, Debug)]
pub struct WeekDayConfBuilder(WeekDaysBuilder);

/// The first stage, for a recurrence by days of the month: the builder of
/// the days itself.
pub type MonthDayConfBuilder = MonthDaysBuilder;

impl View for WeekDayConfBuilder {
    type V = Set<int>;

    closed spec fn view(&self) -> Set<int> {
        self.0@
    }
}

impl WeekDayConfBuilder {
    /// The builder of the days is well formed.
    pub closed spec fn wf(&self) -> bool {
        self.0.wf()
    }

    /// The one day of the week `val`.
    pub fn default_value(val: usize) -> (r: Result<Self, SchedulerError>)
        ensures
            r matches Ok(t) ==> t.wf(),
            outcome(r) == spec_add(Set::empty(), 1, 7, val as int),
    {
        match WeekDaysBuilder::default_value(val) {
            Ok(b) => Ok(Self(b)),
            Err(e) => Err(e),
        }
    }

    /// The days of the week between the two bounds.
    pub fn default_range(start: Bound<usize>, end: Bound<usize>) -> (r: Result<
        Self,
        SchedulerError,
    >)
        ensures
            r matches Ok(t) ==> t.wf(),
            outcome(r) == spec_add_range(Set::empty(), 1, 7, start.first(1), end.last(7)),
    {
        match WeekDaysBuilder::default_range(start, end) {
            Ok(b) => Ok(Self(b)),
            Err(e) => Err(e),
        }
    }

    /// Every day of the week.
    pub fn default_all() -> (r: Self)
        ensures
            r.wf(),
            r@ == span(1, 7),
    {
        Self(WeekDaysBuilder::default_all())
    }

    /// The same days and the day `index`.
    pub fn add(self, index: usize) -> (r: Result<Self, SchedulerError>)
        requires
            self.wf(),
        ensures
            r matches Ok(t) ==> t.wf(),
            outcome(r) == spec_add(self@, 1, 7, index as int),
    {
        match self.0.add(index) {
            Ok(b) => Ok(Self(b)),
            Err(e) => Err(e),
        }
    }

    /// The same days and those between the two bounds.
    pub fn add_range(self, start: Bound<usize>, end: Bound<usize>) -> (r: Result<
        Self,
        SchedulerError,
    >)
        requires
            self.wf(),
        ensures
            r matches Ok(t) ==> t.wf(),
            outcome(r) == spec_add_range(self@, 1, 7, start.first(1), end.last(7)),
    {
        match self.0.add_range(start, end) {
            Ok(b) => Ok(Self(b)),
            Err(e) => Err(e),
        }
    }

    /// The second stage with no hour selected yet: the days are finalized,
    /// the hours are still to come.
    pub fn build(self) -> (r: Result<MonthDayHourConfBuilder, SchedulerError>)
        requires
            self.wf(),
        ensures
            second_stage(
                r,
                spec_finalize(self@, 1, 7),
                DaysView { month_days: None, week_days: Some(self@) },
                Set::empty(),
            ),
    {
        self.build_with_hour_builder(HoursBuilder::default())
    }

    /// The second stage: the days are finalized, these hours are taken along.
    pub fn build_with_hour_builder(self, hours_builder: HoursBuilder) -> (r: Result<
        MonthDayHourConfBuilder,
        SchedulerError,
    >)
        requires
            self.wf(),
            hours_builder.wf(),
        ensures
            second_stage(
                r,
                spec_finalize(self@, 1, 7),
                DaysView { month_days: None, week_days: Some(self@) },
                hours_builder@,
            ),
    {
        let week_days = self.0.finalize::<WeekDays>()?;
        Ok(MonthDayHourConfBuilder { month_days: Days::WeekDay(week_days), hours_builder })
    }
}

/// Whether the step into the second stage ended as it should: refused as
/// the finalizing of the days was, or else with those days and those hours.
pub open spec fn second_stage(
    r: Result<MonthDayHourConfBuilder, SchedulerError>,
    finalized: Result<Set<int>, SchedulerError>,
    days: DaysView,
    hours: Set<int>,
) -> bool {
    match r {
        Ok(next) => finalized is Ok && next.wf() && next.days() == days && next.hours() == hours,
        Err(e) => finalized == Err::<Set<int>, SchedulerError>(e),
    }
}

impl MonthDayConfBuilder {
    /// The second stage with no hour selected yet: the days are finalized,
    /// the hours are still to come.
    pub fn build(self) -> (r: Result<MonthDayHourConfBuilder, SchedulerError>)
        requires
            self.wf(),
        ensures
            second_stage(
                r,
                spec_finalize(self@, 1, 31),
                DaysView { month_days: Some(self@), week_days: None },
                Set::empty(),
            ),
    {
        self.build_with_hour_builder(HoursBuilder::default())
    }

    /// The second stage: the days are finalized, these hours are taken along.
    pub fn build_with_hour_builder(self, hours_builder: HoursBuilder) -> (r: Result<
        MonthDayHourConfBuilder,
        SchedulerError,
    >)
        requires
            self.wf(),
            hours_builder.wf(),
        ensures
            second_stage(
                r,
                spec_finalize(self@, 1, 31),
                DaysView { month_days: Some(self@), week_days: None },
                hours_builder@,
            ),
    {
        let month_days = self.finalize::<MonthDays>()?;
        Ok(MonthDayHourConfBuilder { month_days: Days::MonthDay(month_days), hours_builder })
    }
}

/// The second stage: the days, and the hours as selected so far.
#[derive(Clone, Debug)]
pub struct MonthDayHourConfBuilder {
    month_days: Days,
    hours_builder: HoursBuilder,
}

impl MonthDayHourConfBuilder {
    /// The days, in the model.
    pub closed spec fn days(&self) -> DaysView {
        self.month_days@
    }

    /// The hours, in the model.
    pub closed spec fn hours(&self) -> Set<int> {
        self.hours_builder@
    }

    /// What has been finalized is valid, and the builder taken along is well
    /// formed.
    pub closed spec fn wf(&self) -> bool {
        self.month_days.wf() && self.hours_builder.wf()
    }

    /// The third stage with no minute selected yet.
    pub fn build(self) -> (r: Result<MonthDayHourMinuterConfBuilder, SchedulerError>)
        requires
            self.wf(),
        ensures
            match r {
                Ok(next) => next.wf() && next.days() == self.days() && spec_finalize(
                    self.hours(),
                    0,
                    23,
                ) == Ok::<Set<int>, SchedulerError>(next.hours()) && next.minuters()
                    == Set::<int>::empty(),
                Err(e) => spec_finalize(self.hours(), 0, 23) == Err::<Set<int>, SchedulerError>(e),
            },
    {
        self.build_with_minuter_builder(MinutersBuilder::default())
    }

    /// The third stage: the hours are finalized, these minutes are taken
    /// along.
    pub fn build_with_minuter_builder(self, minuters_builder: MinutersBuilder) -> (r: Result<
        MonthDayHourMinuterConfBuilder,
        SchedulerError,
    >)
        requires
            self.wf(),
            minuters_builder.wf(),
        ensures
            match r {
                Ok(next) => next.wf() && next.days() == self.days() && spec_finalize(
                    self.hours(),
                    0,
                    23,
                ) == Ok::<Set<int>, SchedulerError>(next.hours()) && next.minuters()
                    == minuters_builder@,
                Err(e) => spec_finalize(self.hours(), 0, 23) == Err::<Set<int>, SchedulerError>(e),
            },
    {
        let hours = self.hours_builder.finalize::<Hours>()?;
        Ok(MonthDayHourMinuterConfBuilder { month_days: self.month_days, hours, minuters_builder })
    }
}

/// The third stage: the days, the hours, and the minutes as selected so far.
#[derive(Clone, Debug)]
pub struct MonthDayHourMinuterConfBuilder {
    month_days: Days,
    hours: Hours,
    minuters_builder: MinutersBuilder,
}

impl MonthDayHourMinuterConfBuilder {
    /// The days, in the model.
    pub closed spec fn days(&self) -> DaysView {
        self.month_days@
    }

    /// The hours, in the model.
    pub closed spec fn hours(&self) -> Set<int> {
        self.hours@
    }

    /// The minutes, in the model.
    pub closed spec fn minuters(&self) -> Set<int> {
        self.minuters_builder@
    }

    /// What has been finalized is valid, and the builder taken along is well
    /// formed.
    pub closed spec fn wf(&self) -> bool {
        self.month_days.wf() && self.hours.wf() && self.minuters_builder.wf()
    }

    /// The fourth stage with no second selected yet.
    pub fn build(self) -> (r: Result<MonthDayHourMinuterSecondConfBuilder, SchedulerError>)
        requires
            self.wf(),
        ensures
            match r {
                Ok(next) => next.wf() && next.days() == self.days() && next.hours() == self.hours()
                    && spec_finalize(self.minuters(), 0, 59) == Ok::<Set<int>, SchedulerError>(
                    next.minuters(),
                ) && next.seconds() == Set::<int>::empty(),
                Err(e) => spec_finalize(self.minuters(), 0, 59) == Err::<
                    Set<int>,
                    SchedulerError,
                >(e),
            },
    {
        self.build_with_second_builder(SecondsBuilder::default())
    }

    /// The fourth stage: the minutes are finalized, these seconds are taken
    /// along.
    pub fn build_with_second_builder(self, seconds_builder: SecondsBuilder) -> (r: Result<
        MonthDayHourMinuterSecondConfBuilder,
        SchedulerError,
    >)
        requires
            self.wf(),
            seconds_builder.wf(),
        ensures
            match r {
                Ok(next) => next.wf() && next.days() == self.days() && next.hours() == self.hours()
                    && spec_finalize(self.minuters(), 0, 59) == Ok::<Set<int>, SchedulerError>(
                    next.minuters(),
                ) && next.seconds() == seconds_builder@,
                Err(e) => spec_finalize(self.minuters(), 0, 59) == Err::<
                    Set<int>,
                    SchedulerError,
                >(e),
            },
    {
        let minuters = self.minuters_builder.finalize::<Minuters>()?;
        Ok(
            MonthDayHourMinuterSecondConfBuilder {
                month_days: self.month_days,
                hours: self.hours,
                minuters,
                seconds_builder,
            },
        )
    }
}

/// The fourth stage: the days, the hours, the minutes, and the seconds as
/// selected so far.
#[derive(Clone, Debug)]
pub struct MonthDayHourMinuterSecondConfBuilder {
    month_days: Days,
    hours: Hours,
    minuters: Minuters,
    seconds_builder: SecondsBuilder,
}

impl MonthDayHourMinuterSecondConfBuilder {
    /// The days, in the model.
    pub closed spec fn days(&self) -> DaysView {
        self.month_days@
    }

    /// The hours, in the model.
    pub closed spec fn hours(&self) -> Set<int> {
        self.hours@
    }

    /// The minutes, in the model.
    pub closed spec fn minuters(&self) -> Set<int> {
        self.minuters@
    }

    /// The seconds, in the model.
    pub closed spec fn seconds(&self) -> Set<int> {
        self.seconds_builder@
    }

    /// What has been finalized is valid, and the builder taken along is well
    /// formed.
    pub closed spec fn wf(&self) -> bool {
        self.month_days.wf() && self.hours.wf() && self.minuters.wf() && self.seconds_builder.wf()
    }

    /// The recurrence: the seconds are finalized.
    pub fn build(self) -> (r: Result<MonthDayHourMinuterSecondConf, SchedulerError>)
        requires
            self.wf(),
        ensures
            match r {
                Ok(conf) => conf.wf() && spec_finalize(self.seconds(), 0, 59) == Ok::<
                    Set<int>,
                    SchedulerError,
                >(conf@.seconds) && conf@.days == self.days() && conf@.hours == self.hours()
                    && conf@.minuters == self.minuters(),
                Err(e) => spec_finalize(self.seconds(), 0, 59) == Err::<Set<int>, SchedulerError>(e),
            },
    {
        let seconds = self.seconds_builder.finalize::<Seconds>()?;
        Ok(
            MonthDayHourMinuterSecondConf {
                month_days: self.month_days,
                hours: self.hours,
                minuters: self.minuters,
                seconds,
            },
        )
    }
}

/// A recurrence with one set of days.
#[derive(Clone, Copy, Debug)]
pub struct MonthDayHourMinuterSecondConf {
    month_days: Days,
    hours: Hours,
    minuters: Minuters,
    seconds: Seconds,
}

impl View for MonthDayHourMinuterSecondConf {
    type V = ConfView;

    closed spec fn view(&self) -> ConfView {
        ConfView {
            days: self.month_days@,
            hours: self.hours@,
            minuters: self.minuters@,
            seconds: self.seconds@,
        }
    }
}

impl MonthDayHourMinuterSecondConf {
    /// Every set is a valid set of its field.
    pub open spec fn wf(&self) -> bool {
        is_conf(self@)
    }

    /// The same recurrence in the form that can be asked for the next
    /// instant.
    pub fn into_conf(self) -> (r: DayHourMinuterSecondConf)
        requires
            self.wf(),
        ensures
            r.wf(),
            r@ == self@,
    {
        DayHourMinuterSecondConf::with_days(
            self.month_days,
            self.hours,
            self.minuters,
            self.seconds,
        )
    }
}

} // verus!
