use custom_utils::{
    Bound, CommonTime, CommonTimesBuilder, Hours, HoursBuilder, Minuters, MinutersBuilder,
    MonthDayConfBuilder, MonthDays, MonthDaysBuilder, Operator, SchedulerError, Seconds,
    SecondsBuilder, WeekDayConfBuilder, WeekDays, WeekDaysBuilder,
};

#[test]
fn an_empty_builder_cannot_be_finalized() {
    assert_eq!(
        SecondsBuilder::default().finalize::<Seconds>().err(),
        Some(SchedulerError::EmptySet)
    );
    assert_eq!(HoursBuilder::default().finalize::<Hours>().err(), Some(SchedulerError::EmptySet));
    assert_eq!(
        WeekDaysBuilder::default().finalize::<WeekDays>().err(),
        Some(SchedulerError::EmptySet)
    );
    assert_eq!(
        MonthDaysBuilder::default().finalize::<MonthDays>().err(),
        Some(SchedulerError::EmptySet)
    );
}

#[test]
fn a_builder_finalizes_into_the_set_of_what_it_holds() {
    let builder = HoursBuilder::default()
        .add(9)
        .unwrap()
        .add_range(Bound::Included(20), Bound::Unbounded)
        .unwrap()
        .add_array(&[0, 9])
        .unwrap();
    assert!(builder.contain(9));
    assert!(!builder.contain(10));
    assert!(!builder.contain(24));
    assert_eq!(builder.to_vec(), vec![0, 9, 20, 21, 22, 23]);
    let hours = builder.finalize::<Hours>().unwrap();
    assert_eq!(hours.to_vec(), vec![0, 9, 20, 21, 22, 23]);
}

#[test]
fn finalizing_for_another_field_checks_its_domain() {
    let days = WeekDaysBuilder::default_all();
    assert_eq!(days.clone().finalize::<Seconds>().unwrap().to_vec(), vec![1, 2, 3, 4, 5, 6, 7]);
    let minutes = MinutersBuilder::default_value(59).unwrap();
    assert_eq!(minutes.finalize::<Hours>().err(), Some(SchedulerError::OutOfRange));
    let wide = CommonTimesBuilder::<100, 0>::default_value(70).unwrap();
    assert_eq!(wide.finalize::<Minuters>().err(), Some(SchedulerError::OutOfRange));
}

#[test]
fn the_domain_of_a_builder_ends_one_before_its_size() {
    assert_eq!(HoursBuilder::default_value(24).err(), Some(SchedulerError::OutOfRange));
    assert_eq!(MonthDaysBuilder::default_value(32).err(), Some(SchedulerError::OutOfRange));
    assert_eq!(MonthDaysBuilder::default_value(0).err(), Some(SchedulerError::OutOfRange));
    assert_eq!(WeekDaysBuilder::default_value(7).unwrap().to_vec(), vec![7]);
    assert_eq!(
        HoursBuilder::default_range(Bound::Included(22), Bound::Included(24)).err(),
        Some(SchedulerError::OutOfRange)
    );
    assert_eq!(
        HoursBuilder::default_range(Bound::Included(5), Bound::Excluded(5)).err(),
        Some(SchedulerError::InvalidRange)
    );
    assert_eq!(
        HoursBuilder::default_range(Bound::Excluded(usize::MAX), Bound::Unbounded).err(),
        Some(SchedulerError::InvalidRange)
    );
    assert_eq!(HoursBuilder::default_all().to_vec(), (0..24).collect::<Vec<usize>>());
    assert_eq!(SecondsBuilder::default_zero().to_vec(), vec![0]);
    assert!(HoursBuilder::default().check(23));
    assert!(!HoursBuilder::default().check(24));
}

#[test]
fn one_value_of_a_domain() {
    let nine = CommonTime::<24, 0>::new(9).unwrap();
    assert_eq!(nine.value(), 9);
    assert_eq!(nine.from_u32(23).unwrap().value(), 23);
    assert_eq!(nine.from_u32(24).err(), Some(SchedulerError::OutOfRange));
    assert!(nine.check(0));
    assert!(!nine.check(24));
    assert_eq!(CommonTime::<7, 1>::new(0).err(), Some(SchedulerError::OutOfRange));
    assert_eq!(CommonTime::<7, 1>::new(7).unwrap().value(), 7);
}

#[test]
fn the_stages_refuse_a_builder_that_holds_nothing() {
    let no_hours = WeekDayConfBuilder::default_all().build().unwrap();
    assert_eq!(
        no_hours.build_with_minuter_builder(MinutersBuilder::default_all()).err(),
        Some(SchedulerError::EmptySet)
    );
    assert_eq!(
        MonthDayConfBuilder::default()
            .build_with_hour_builder(HoursBuilder::default_all())
            .err(),
        Some(SchedulerError::EmptySet)
    );
    let no_seconds = MonthDayConfBuilder::default_value(15)
        .unwrap()
        .build_with_hour_builder(HoursBuilder::default_all())
        .unwrap()
        .build_with_minuter_builder(MinutersBuilder::default_zero())
        .unwrap()
        .build()
        .unwrap();
    assert_eq!(no_seconds.build().err(), Some(SchedulerError::EmptySet));
}

#[test]
fn the_first_stage_by_days_of_the_week_checks_its_days() {
    assert_eq!(WeekDayConfBuilder::default_value(0).err(), Some(SchedulerError::OutOfRange));
    assert_eq!(WeekDayConfBuilder::default_value(8).err(), Some(SchedulerError::OutOfRange));
    assert_eq!(
        WeekDayConfBuilder::default_range(Bound::Included(6), Bound::Included(8)).err(),
        Some(SchedulerError::OutOfRange)
    );
    assert_eq!(
        WeekDayConfBuilder::default_all().add(9).err(),
        Some(SchedulerError::OutOfRange)
    );
    assert_eq!(
        WeekDayConfBuilder::default_all()
            .add_range(Bound::Included(3), Bound::Excluded(3))
            .err(),
        Some(SchedulerError::InvalidRange)
    );
    assert!(WeekDayConfBuilder::default_range(Bound::Included(1), Bound::Excluded(8)).is_ok());
}

#[test]
fn a_change_in_place_that_fails_changes_nothing() {
    let mut builder = HoursBuilder::default_value(7).unwrap();
    assert_eq!(
        builder.insert_range(Bound::Included(9), Bound::Excluded(9)),
        Err(SchedulerError::InvalidRange)
    );
    assert_eq!(builder.to_vec(), vec![7]);
    assert_eq!(
        builder.insert_range(Bound::Included(20), Bound::Included(24)),
        Err(SchedulerError::OutOfRange)
    );
    assert_eq!(builder.to_vec(), vec![7]);
    assert_eq!(builder.insert(24), Err(SchedulerError::OutOfRange));
    assert_eq!(builder.to_vec(), vec![7]);
    assert_eq!(builder.insert_array(&[1, 2, 24, 3]), Err(SchedulerError::OutOfRange));
    assert_eq!(builder.to_vec(), vec![7]);
    assert_eq!(builder.insert(7), Ok(()));
    assert_eq!(builder.insert(0), Ok(()));
    assert_eq!(builder.insert_range(Bound::Excluded(20), Bound::Unbounded), Ok(()));
    assert_eq!(builder.insert_array(&[12, 0, 12]), Ok(()));
    assert_eq!(builder.to_vec(), vec![0, 7, 12, 21, 22, 23]);
}
