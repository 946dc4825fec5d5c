use custom_utils::{
    Bound, Hours, Minuters, MonthDays, Operator, SchedulerError, Seconds, WeekDays,
};

#[test]
fn a_value_that_was_added_is_a_member() {
    let set = Hours::default_value(3).unwrap();
    for v in 0..24u8 {
        let grown = set.add(v).unwrap();
        assert!(grown.contain(v));
        assert!(grown.contain(3));
    }
}

#[test]
fn adding_a_member_again_changes_nothing() {
    let once = Minuters::default_value(7).unwrap().add(40).unwrap();
    let twice = once.add(40).unwrap();
    assert_eq!(once.to_vec(), twice.to_vec());
    assert_eq!(twice.to_vec(), vec![7, 40]);
}

#[test]
fn add_refuses_what_the_domain_does_not_hold() {
    let set = WeekDays::default_value(2).unwrap();
    assert_eq!(set.add(0).err(), Some(SchedulerError::OutOfRange));
    assert_eq!(set.add(8).err(), Some(SchedulerError::OutOfRange));
    assert_eq!(set.add(255).err(), Some(SchedulerError::OutOfRange));
    assert_eq!(MonthDays::default_value(1).unwrap().add(32).err(), Some(SchedulerError::OutOfRange));
}

#[test]
fn the_members_come_out_ascending_and_inside_the_domain() {
    let set = MonthDays::default_value(31)
        .unwrap()
        .add_array(&[17, 1, 9, 17, 2])
        .unwrap()
        .add_range(Bound::Excluded(20), Bound::Excluded(24))
        .unwrap();
    let members = set.to_vec();
    assert_eq!(members, vec![1, 2, 9, 17, 21, 22, 23, 31]);
    for pair in members.windows(2) {
        assert!(pair[0] < pair[1]);
    }
    for v in members {
        assert!(1 <= v && v <= 31);
    }
}

#[test]
fn a_range_that_holds_no_value_is_invalid() {
    let set = Seconds::default_value(0).unwrap();
    assert_eq!(
        set.add_range(Bound::Included(5), Bound::Excluded(5)).err(),
        Some(SchedulerError::InvalidRange)
    );
    assert_eq!(
        set.add_range(Bound::Included(30), Bound::Included(10)).err(),
        Some(SchedulerError::InvalidRange)
    );
    assert_eq!(
        set.add_range(Bound::Excluded(9), Bound::Excluded(10)).err(),
        Some(SchedulerError::InvalidRange)
    );
    assert_eq!(
        set.add_range(Bound::Included(0), Bound::Excluded(0)).err(),
        Some(SchedulerError::InvalidRange)
    );
    assert_eq!(
        set.add_range(Bound::Excluded(255), Bound::Unbounded).err(),
        Some(SchedulerError::InvalidRange)
    );
    // the set that was given is a copy: it is as it was
    assert_eq!(set.to_vec(), vec![0]);
}

#[test]
fn a_reversed_range_is_invalid_even_outside_the_domain() {
    assert_eq!(
        WeekDays::default_range(Bound::Included(9), Bound::Included(0)).err(),
        Some(SchedulerError::InvalidRange)
    );
}

#[test]
fn a_range_that_leaves_the_domain_is_out_of_range() {
    assert_eq!(
        Hours::default_range(Bound::Included(20), Bound::Included(24)).err(),
        Some(SchedulerError::OutOfRange)
    );
    assert_eq!(
        MonthDays::default_range(Bound::Included(0), Bound::Included(3)).err(),
        Some(SchedulerError::OutOfRange)
    );
    assert_eq!(
        Hours::default_range(Bound::Included(20), Bound::Excluded(24)).unwrap().to_vec(),
        vec![20, 21, 22, 23]
    );
}

#[test]
fn an_open_end_stands_for_the_end_of_the_domain() {
    assert_eq!(
        WeekDays::default_range(Bound::Included(5), Bound::Unbounded).unwrap().to_vec(),
        vec![5, 6, 7]
    );
    assert_eq!(
        WeekDays::default_range(Bound::Unbounded, Bound::Included(2)).unwrap().to_vec(),
        vec![1, 2]
    );
    assert_eq!(
        Hours::default_range(Bound::Unbounded, Bound::Unbounded).unwrap().to_vec(),
        Hours::default_all().to_vec()
    );
}

#[test]
fn the_whole_domain_starts_at_its_least_value() {
    assert_eq!(Seconds::default_all().min_val(), 0);
    assert_eq!(Minuters::default_all().min_val(), 0);
    assert_eq!(Hours::default_all().min_val(), 0);
    assert_eq!(MonthDays::default_all().min_val(), 1);
    assert_eq!(WeekDays::default_all().min_val(), 1);
}

#[test]
fn the_whole_domain_lists_every_value() {
    assert_eq!(Seconds::default_all().to_vec(), (0..=59).collect::<Vec<u8>>());
    assert_eq!(Minuters::default_all().to_vec(), (0..=59).collect::<Vec<u8>>());
    assert_eq!(Hours::default_all().to_vec(), (0..=23).collect::<Vec<u8>>());
    assert_eq!(MonthDays::default_all().to_vec(), (1..=31).collect::<Vec<u8>>());
    assert_eq!(WeekDays::default_all().to_vec(), (1..=7).collect::<Vec<u8>>());
}

#[test]
fn contain_is_false_outside_the_domain() {
    let all = WeekDays::default_all();
    assert!(!all.contain(0));
    assert!(!all.contain(8));
    assert!(!all.contain(64));
    assert!(!all.contain(255));
    let all = Seconds::default_all();
    assert!(!all.contain(60));
    assert!(!all.contain(63));
    assert!(!all.contain(200));
}

#[test]
fn next_is_the_least_member_that_is_greater() {
    let set = Minuters::default_value(0).unwrap().add_array(&[10, 20, 59]).unwrap();
    assert_eq!(set.next(0), Some(10));
    assert_eq!(set.next(9), Some(10));
    assert_eq!(set.next(10), Some(20));
    assert_eq!(set.next(20), Some(59));
    assert_eq!(set.next(58), Some(59));
    assert_eq!(set.next(59), None);
    assert_eq!(set.next(200), None);
    assert_eq!(set.min_val(), 0);
}

#[test]
fn min_self_next_gives_all_three() {
    let set = Hours::default_value(4).unwrap().add(9).unwrap().add(17).unwrap();
    assert_eq!(set.min_self_next(9), (4, Some(9), Some(17)));
    assert_eq!(set.min_self_next(10), (4, None, Some(17)));
    assert_eq!(set.min_self_next(17), (4, Some(17), None));
    assert_eq!(set.min_self_next(0), (4, None, Some(4)));
}

#[test]
fn check_tells_the_domain() {
    assert_eq!(Hours::check(23), Ok(()));
    assert_eq!(Hours::check(24), Err(SchedulerError::OutOfRange));
    assert_eq!(WeekDays::check(0), Err(SchedulerError::OutOfRange));
    assert_eq!(WeekDays::check(7), Ok(()));
    assert_eq!((MonthDays::MIN, MonthDays::MAX), (1, 31));
    assert_eq!((Seconds::MIN, Seconds::MAX), (0, 59));
}

#[test]
fn add_array_refuses_all_for_one_value_outside() {
    let set = WeekDays::default_value(1).unwrap();
    assert_eq!(set.add_array(&[2, 3, 8, 4]).err(), Some(SchedulerError::OutOfRange));
    assert_eq!(set.add_array(&[]).unwrap().to_vec(), vec![1]);
    assert_eq!(set.add_array(&[7, 7, 2]).unwrap().to_vec(), vec![1, 2, 7]);
}

#[test]
fn a_raw_mask_is_checked() {
    assert_eq!(Hours::_from_val(0).err(), Some(SchedulerError::EmptySet));
    assert_eq!(Hours::_from_val(1 << 24).err(), Some(SchedulerError::OutOfRange));
    assert_eq!(WeekDays::_from_val(1).err(), Some(SchedulerError::OutOfRange));
    assert_eq!(WeekDays::_from_val(1 << 63).err(), Some(SchedulerError::OutOfRange));
    let set = Hours::_from_val((1 << 23) | 1).unwrap();
    assert_eq!(set.to_vec(), vec![0, 23]);
    assert_eq!(set._val(), (1 << 23) | 1);
}

#[test]
fn describe_says_all_or_lists_the_members() {
    assert_eq!(Seconds::default_all().describe(), "all seconds.");
    assert_eq!(Minuters::default_all().describe(), "all minuters.");
    assert_eq!(Hours::default_all().describe(), "all hours.");
    assert_eq!(MonthDays::default_all().describe(), "all month days.");
    assert_eq!(WeekDays::default_all().describe(), "all week days.");
    let set = WeekDays::default_value(1).unwrap().add_array(&[3, 5]).unwrap();
    assert_eq!(set.describe(), "week days: [1, 3, 5].");
    assert!(!set.is_all());
    assert!(WeekDays::default_range(Bound::Unbounded, Bound::Unbounded).unwrap().is_all());
}
