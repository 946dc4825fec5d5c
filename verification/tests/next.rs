use custom_utils::conf::possibles;
use custom_utils::{
    get_val, Bound, Date, DateTime, DayConfBuilder, DayHourMinuterSecondConf, Days, Hours,
    HoursBuilder, Minuters, MinutersBuilder, MonthDayConfBuilder, MonthDays, Operator, Possible,
    SchedulerError, Seconds, SecondsBuilder, WeekDays,
};

fn at(year: i32, month: u8, day: u8, hour: u8, minuter: u8, second: u8) -> DateTime {
    DateTime::new(year, month, day, hour, minuter, second).unwrap()
}

fn every_second_of(days: DayConfBuilder) -> DayHourMinuterSecondConf {
    days.build_with_hours(Hours::default_all())
        .build_with_minuter_builder(Minuters::default_all())
        .build_with_second_builder(Seconds::default_all())
}

fn every_day() -> DayConfBuilder {
    DayConfBuilder::default_week_days(WeekDays::default_all())
}

#[test]
fn monday_quarter_past_nine_comes_again_a_week_later() {
    let conf = DayConfBuilder::default_week_days(WeekDays::default_value(1).unwrap())
        .build_with_hours(Hours::default_value(9).unwrap())
        .build_with_minuter_builder(Minuters::default_value(15).unwrap())
        .build_with_second_builder(Seconds::default_value(0).unwrap());
    let now = at(2024, 1, 1, 9, 15, 0);
    assert_eq!(now.week_day(), 1);
    let next = conf.next(&now).unwrap();
    assert_eq!(next, at(2024, 1, 8, 9, 15, 0));
    assert_eq!(next.week_day(), 1);
}

#[test]
fn the_next_half_minute_is_in_the_same_minute() {
    let conf = every_day()
        .build_with_hours(Hours::default_all())
        .build_with_minuter_builder(Minuters::default_all())
        .build_with_second_builder(Seconds::default_value(0).unwrap().add(30).unwrap());
    assert_eq!(conf.next(&at(2024, 5, 5, 12, 34, 15)), Ok(at(2024, 5, 5, 12, 34, 30)));
    assert_eq!(conf.next(&at(2024, 5, 5, 12, 34, 0)), Ok(at(2024, 5, 5, 12, 34, 30)));
    assert_eq!(conf.next(&at(2024, 5, 5, 12, 34, 30)), Ok(at(2024, 5, 5, 12, 35, 0)));
    assert_eq!(conf.next(&at(2024, 5, 5, 12, 59, 45)), Ok(at(2024, 5, 5, 13, 0, 0)));
    assert_eq!(conf.next(&at(2024, 5, 5, 23, 59, 30)), Ok(at(2024, 5, 6, 0, 0, 0)));
}

#[test]
fn the_thirty_first_is_found_in_a_month_that_has_it() {
    let conf = every_second_of(DayConfBuilder::default_month_days(
        MonthDays::default_value(31).unwrap(),
    ));
    assert_eq!(conf.next(&at(2024, 1, 10, 12, 34, 56)), Ok(at(2024, 1, 31, 0, 0, 0)));
    assert_eq!(conf.next(&at(2024, 1, 31, 12, 34, 56)), Ok(at(2024, 1, 31, 12, 34, 57)));
    assert_eq!(conf.next(&at(2024, 7, 31, 23, 59, 59)), Ok(at(2024, 8, 31, 0, 0, 0)));
    assert_eq!(conf.next(&at(2024, 12, 31, 23, 59, 59)), Ok(at(2025, 1, 31, 0, 0, 0)));
}

#[test]
fn the_thirty_first_of_a_short_month_is_a_calendar_overflow() {
    let conf = every_second_of(DayConfBuilder::default_month_days(
        MonthDays::default_value(31).unwrap(),
    ));
    assert_eq!(conf.next(&at(2024, 4, 10, 12, 34, 56)), Err(SchedulerError::CalendarOverflow));
    assert_eq!(conf.next(&at(2024, 1, 31, 23, 59, 59)), Err(SchedulerError::CalendarOverflow));
    let leap_day = every_second_of(DayConfBuilder::default_month_days(
        MonthDays::default_value(29).unwrap(),
    ));
    assert_eq!(leap_day.next(&at(2024, 2, 1, 0, 0, 0)), Ok(at(2024, 2, 29, 0, 0, 0)));
    assert_eq!(leap_day.next(&at(2023, 2, 1, 0, 0, 0)), Err(SchedulerError::CalendarOverflow));
}

#[test]
fn a_day_of_the_month_past_the_end_of_the_month_is_tried_without_a_detour() {
    // from the 31st of January to the 5th of February: no 31st of February in between
    let conf = every_second_of(DayConfBuilder::default_month_days(
        MonthDays::default_value(5).unwrap(),
    ));
    assert_eq!(conf.next(&at(2024, 1, 31, 10, 0, 0)), Ok(at(2024, 2, 5, 0, 0, 0)));
    assert_eq!(conf.next(&at(2024, 12, 10, 10, 0, 0)), Ok(at(2025, 1, 5, 0, 0, 0)));
    assert_eq!(conf.next(&at(9999, 12, 10, 10, 0, 0)), Err(SchedulerError::CalendarOverflow));
}

#[test]
fn the_instants_of_a_recurrence_ascend() {
    let confs = [
        every_second_of(every_day()),
        DayConfBuilder::default_week_days(WeekDays::default_value(3).unwrap())
            .with_month_days(MonthDays::default_value(1).unwrap().add(15).unwrap())
            .build_with_hours(Hours::default_value(0).unwrap().add(23).unwrap())
            .build_with_minuter_builder(Minuters::default_value(59).unwrap())
            .build_with_second_builder(Seconds::default_value(0).unwrap().add(59).unwrap()),
        DayConfBuilder::default_month_days(MonthDays::default_value(28).unwrap())
            .build_with_hours(Hours::default_value(12).unwrap())
            .build_with_minuter_builder(Minuters::default_value(0).unwrap())
            .build_with_second_builder(Seconds::default_value(0).unwrap()),
    ];
    for conf in confs {
        let mut now = at(2023, 12, 30, 23, 58, 58);
        for _ in 0..500 {
            let next = conf.next(&now).unwrap();
            assert!(now.is_before(&next));
            assert!(conf.contains_day(next.month_day(), next.week_day()));
            now = next;
        }
    }
}

#[test]
fn each_field_moves_on_where_the_finer_one_carries_over() {
    let conf = every_day()
        .build_with_hours(Hours::default_value(9).unwrap().add(17).unwrap())
        .build_with_minuter_builder(Minuters::default_value(15).unwrap().add(45).unwrap())
        .build_with_second_builder(Seconds::default_value(10).unwrap().add(50).unwrap());
    // all fields allowed: the second moves on
    assert_eq!(conf.next(&at(2024, 3, 1, 9, 15, 10)), Ok(at(2024, 3, 1, 9, 15, 50)));
    // the second is allowed or not: it moves on all the same
    assert_eq!(conf.next(&at(2024, 3, 1, 9, 15, 20)), Ok(at(2024, 3, 1, 9, 15, 50)));
    // the second carries over into the minute
    assert_eq!(conf.next(&at(2024, 3, 1, 9, 15, 50)), Ok(at(2024, 3, 1, 9, 45, 10)));
    // the minute carries over into the hour
    assert_eq!(conf.next(&at(2024, 3, 1, 9, 45, 50)), Ok(at(2024, 3, 1, 17, 15, 10)));
    // the hour carries over into the day
    assert_eq!(conf.next(&at(2024, 3, 1, 17, 45, 50)), Ok(at(2024, 3, 2, 9, 15, 10)));
    // the minute is not allowed: it moves on, the second starts again
    assert_eq!(conf.next(&at(2024, 3, 1, 9, 20, 55)), Ok(at(2024, 3, 1, 9, 45, 10)));
    assert_eq!(conf.next(&at(2024, 3, 1, 9, 50, 0)), Ok(at(2024, 3, 1, 17, 15, 10)));
    // the hour is not allowed: it moves on, minute and second start again
    assert_eq!(conf.next(&at(2024, 3, 1, 10, 50, 55)), Ok(at(2024, 3, 1, 17, 15, 10)));
    assert_eq!(conf.next(&at(2024, 3, 1, 18, 0, 0)), Ok(at(2024, 3, 2, 9, 15, 10)));
    assert_eq!(conf.next(&at(2024, 2, 29, 18, 0, 0)), Ok(at(2024, 3, 1, 9, 15, 10)));
}

#[test]
fn a_day_that_is_not_allowed_starts_the_next_one_at_its_least_time() {
    let conf = DayConfBuilder::default_week_days(
        WeekDays::default_value(2).unwrap().add(6).unwrap(),
    )
    .build_with_hours(Hours::default_value(9).unwrap().add(17).unwrap())
    .build_with_minuter_builder(Minuters::default_value(15).unwrap())
    .build_with_second_builder(Seconds::default_value(30).unwrap());
    // 2024-01-03 is a Wednesday
    assert_eq!(conf.next(&at(2024, 1, 3, 9, 15, 30)), Ok(at(2024, 1, 6, 9, 15, 30)));
    assert_eq!(conf.next(&at(2024, 1, 6, 9, 15, 30)), Ok(at(2024, 1, 6, 17, 15, 30)));
    assert_eq!(conf.next(&at(2024, 1, 6, 17, 15, 30)), Ok(at(2024, 1, 9, 9, 15, 30)));
    assert_eq!(conf.next(&at(2024, 1, 7, 0, 0, 0)), Ok(at(2024, 1, 9, 9, 15, 30)));
    assert_eq!(conf.next(&at(2024, 12, 31, 17, 15, 30)), Ok(at(2025, 1, 4, 9, 15, 30)));
}

#[test]
fn with_both_kinds_of_days_the_earlier_date_counts() {
    let conf = every_second_of(
        DayConfBuilder::default_month_days(MonthDays::default_value(20).unwrap())
            .with_week_days(WeekDays::default_value(5).unwrap()),
    );
    // 2024-01-10 is a Wednesday: Friday the 12th comes before the 20th
    assert_eq!(conf.next(&at(2024, 1, 10, 8, 0, 0)), Ok(at(2024, 1, 12, 0, 0, 0)));
    // on the Friday itself the day is allowed by the days of the week
    assert_eq!(conf.next(&at(2024, 1, 12, 8, 0, 0)), Ok(at(2024, 1, 12, 8, 0, 1)));
    assert_eq!(conf.next(&at(2024, 1, 12, 23, 59, 59)), Ok(at(2024, 1, 19, 0, 0, 0)));
    // 2024-01-19 is a Friday: the 20th comes before the next Friday
    assert_eq!(conf.next(&at(2024, 1, 19, 23, 59, 59)), Ok(at(2024, 1, 20, 0, 0, 0)));
    // on the 20th, a Saturday, the day is allowed by the days of the month
    assert_eq!(conf.next(&at(2024, 1, 20, 23, 59, 58)), Ok(at(2024, 1, 20, 23, 59, 59)));
    assert_eq!(conf.next(&at(2024, 1, 20, 23, 59, 59)), Ok(at(2024, 1, 26, 0, 0, 0)));
    assert!(conf.contains_day(20, 3));
    assert!(conf.contains_day(3, 5));
    assert!(!conf.contains_day(3, 3));
}

#[test]
fn with_both_kinds_of_days_one_overflow_ends_the_search() {
    let conf = every_second_of(
        DayConfBuilder::default_week_days(WeekDays::default_value(1).unwrap())
            .with_month_days(MonthDays::default_value(31).unwrap()),
    );
    // 2024-04-02 is a Tuesday in a month of 30 days
    assert_eq!(conf.next(&at(2024, 4, 2, 8, 0, 0)), Err(SchedulerError::CalendarOverflow));
    // on a Monday the day is allowed as it is
    assert_eq!(conf.next(&at(2024, 4, 1, 8, 0, 0)), Ok(at(2024, 4, 1, 8, 0, 1)));
}

#[test]
fn the_candidate_date_is_today_or_the_next_allowed_day() {
    let conf = every_second_of(DayConfBuilder::default_week_days(
        WeekDays::default_value(1).unwrap().add(4).unwrap(),
    ));
    let monday = at(2024, 1, 1, 12, 0, 0);
    assert_eq!(conf.next_candidate_date(&monday, false), Ok(monday.date()));
    assert_eq!(conf.next_candidate_date(&monday, true), Date::new(2024, 1, 4));
    let tuesday = at(2024, 1, 2, 12, 0, 0);
    assert_eq!(conf.next_candidate_date(&tuesday, false), Date::new(2024, 1, 4));
    let thursday = at(2024, 1, 4, 12, 0, 0);
    assert_eq!(conf.next_candidate_date(&thursday, true), Date::new(2024, 1, 8));
    let sunday = at(2024, 1, 7, 12, 0, 0);
    assert_eq!(conf.next_candidate_date(&sunday, false), Date::new(2024, 1, 8));
    let only_monday = every_second_of(DayConfBuilder::default_week_days(
        WeekDays::default_value(1).unwrap(),
    ));
    assert_eq!(only_monday.next_candidate_date(&monday, true), Date::new(2024, 1, 8));
    let last = at(9999, 12, 31, 12, 0, 0);
    assert_eq!(
        only_monday.next_candidate_date(&last, false),
        Err(SchedulerError::CalendarOverflow)
    );
}

#[test]
fn each_set_of_days_gives_its_next_date() {
    let days = MonthDays::default_value(10).unwrap().add(20).unwrap();
    assert_eq!(days.next_date(&Date::new(2024, 2, 9).unwrap()), Date::new(2024, 2, 10));
    assert_eq!(days.next_date(&Date::new(2024, 2, 10).unwrap()), Date::new(2024, 2, 20));
    assert_eq!(days.next_date(&Date::new(2024, 2, 20).unwrap()), Date::new(2024, 3, 10));
    assert_eq!(days.next_date(&Date::new(2024, 12, 25).unwrap()), Date::new(2025, 1, 10));
    let days = WeekDays::default_value(3).unwrap();
    assert_eq!(days.next_date(&Date::new(2024, 1, 1).unwrap(), 1), Date::new(2024, 1, 3));
    assert_eq!(days.next_date(&Date::new(2024, 1, 3).unwrap(), 3), Date::new(2024, 1, 10));
    assert_eq!(days.next_date(&Date::new(2024, 1, 7).unwrap(), 7), Date::new(2024, 1, 10));
    assert_eq!(days.next_date(&Date::new(2024, 2, 28).unwrap(), 3), Date::new(2024, 3, 6));
}

#[test]
fn the_end_of_the_calendar_is_a_calendar_overflow() {
    let conf = every_second_of(every_day());
    assert_eq!(conf.next(&at(9999, 12, 31, 23, 59, 58)), Ok(at(9999, 12, 31, 23, 59, 59)));
    assert_eq!(conf.next(&at(9999, 12, 31, 23, 59, 59)), Err(SchedulerError::CalendarOverflow));
}

#[test]
fn get_val_finds_the_value_of_one_field() {
    let set = Hours::default_value(4).unwrap().add(9).unwrap();
    assert_eq!(get_val(Possible::Min, &set, 7), (4, false));
    assert_eq!(get_val(Possible::Oneself, &set, 7), (7, false));
    assert_eq!(get_val(Possible::Next, &set, 7), (9, false));
    assert_eq!(get_val(Possible::Next, &set, 4), (9, false));
    assert_eq!(get_val(Possible::Next, &set, 9), (4, true));
    assert_eq!(get_val(Possible::Next, &set, 23), (4, true));
}

#[test]
fn the_finest_field_whose_coarser_fields_are_allowed_moves_on() {
    let (min, oneself, next) = (Possible::Min, Possible::Oneself, Possible::Next);
    assert_eq!(possibles(true, true, true), (oneself, oneself, oneself, next));
    assert_eq!(possibles(true, true, false), (oneself, oneself, next, min));
    assert_eq!(possibles(true, false, true), (oneself, next, min, min));
    assert_eq!(possibles(true, false, false), (oneself, next, min, min));
    assert_eq!(possibles(false, true, true), (next, min, min, min));
    assert_eq!(possibles(false, false, false), (next, min, min, min));
}

#[test]
fn a_recurrence_built_from_builders_is_the_same_recurrence() {
    let staged = MonthDayConfBuilder::default_value(15)
        .unwrap()
        .add_range(Bound::Included(28), Bound::Unbounded)
        .unwrap()
        .build_with_hour_builder(HoursBuilder::default_value(6).unwrap())
        .unwrap()
        .build_with_minuter_builder(MinutersBuilder::default_zero())
        .unwrap()
        .build_with_second_builder(SecondsBuilder::default_zero())
        .unwrap()
        .build()
        .unwrap()
        .into_conf();
    assert_eq!(staged.next(&at(2024, 2, 15, 6, 0, 0)), Ok(at(2024, 2, 28, 6, 0, 0)));
    assert_eq!(staged.next(&at(2024, 2, 28, 6, 0, 0)), Ok(at(2024, 2, 29, 6, 0, 0)));
    assert_eq!(staged.next(&at(2024, 2, 29, 6, 0, 0)), Err(SchedulerError::CalendarOverflow));
    let direct = DayHourMinuterSecondConf::with_days(
        Days::from(MonthDays::default_value(15).unwrap()),
        Hours::default_value(6).unwrap(),
        Minuters::default_value(0).unwrap(),
        Seconds::default_value(0).unwrap(),
    );
    assert_eq!(direct.next(&at(2024, 2, 15, 6, 0, 0)), Ok(at(2024, 3, 15, 6, 0, 0)));
    let from_set = every_second_of(DayConfBuilder::from(WeekDays::default_value(7).unwrap()));
    assert_eq!(from_set.next(&at(2024, 1, 1, 0, 0, 0)), Ok(at(2024, 1, 7, 0, 0, 0)));
}

fn one_second_later(t: &DateTime) -> DateTime {
    let (mut hour, mut minuter, mut second) = (t.hour(), t.minuter(), t.second() + 1);
    let mut date = t.date();
    if second == 60 {
        second = 0;
        minuter += 1;
    }
    if minuter == 60 {
        minuter = 0;
        hour += 1;
    }
    if hour == 24 {
        hour = 0;
        date = date.add_days(1).unwrap();
    }
    DateTime::at(date, hour, minuter, second).unwrap()
}

#[test]
fn the_next_instant_is_the_earliest_allowed_one() {
    let confs = [
        every_day()
            .build_with_hours(Hours::default_value(0).unwrap().add(23).unwrap())
            .build_with_minuter_builder(Minuters::default_value(0).unwrap().add(59).unwrap())
            .build_with_second_builder(Seconds::default_value(0).unwrap().add(30).unwrap()),
        DayConfBuilder::default_week_days(WeekDays::default_value(7).unwrap())
            .with_month_days(MonthDays::default_value(2).unwrap())
            .build_with_hours(Hours::default_value(12).unwrap())
            .build_with_minuter_builder(Minuters::default_value(30).unwrap())
            .build_with_second_builder(Seconds::default_value(15).unwrap().add(45).unwrap()),
    ];
    let starts = [
        at(2024, 2, 28, 22, 58, 29),
        at(2023, 12, 31, 23, 59, 29),
        at(2024, 3, 1, 12, 30, 15),
    ];
    for conf in confs {
        for start in starts {
            let next = conf.next(&start).unwrap();
            assert!(conf.allows(&next));
            assert!(start.is_before(&next));
            let mut between = one_second_later(&start);
            while between.is_before(&next) {
                assert!(!conf.allows(&between));
                between = one_second_later(&between);
            }
            assert_eq!(between, next);
        }
    }
}

#[test]
fn a_recurrence_tells_what_it_allows() {
    let conf = DayConfBuilder::default_month_days(MonthDays::default_value(15).unwrap())
        .build_with_hours(Hours::default_value(6).unwrap())
        .build_with_minuter_builder(Minuters::default_value(30).unwrap())
        .build_with_second_builder(Seconds::default_value(0).unwrap());
    assert!(conf.allows(&at(2024, 5, 15, 6, 30, 0)));
    assert!(!conf.allows(&at(2024, 5, 16, 6, 30, 0)));
    assert!(!conf.allows(&at(2024, 5, 15, 7, 30, 0)));
    assert!(!conf.allows(&at(2024, 5, 15, 6, 31, 0)));
    assert!(!conf.allows(&at(2024, 5, 15, 6, 30, 1)));
    assert_eq!(conf.month_days().unwrap().to_vec(), vec![15]);
    assert!(conf.week_days().is_none());
    assert_eq!(conf.hours().to_vec(), vec![6]);
    assert_eq!(conf.minuters().to_vec(), vec![30]);
    assert_eq!(conf.seconds().to_vec(), vec![0]);
}
