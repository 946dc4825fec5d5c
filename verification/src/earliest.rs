//! The next instant is an allowed one, and there is no allowed one between
//! it and the instant that was asked for.
//!
//! Days are counted from the date that was asked for, and their days of the
//! week from the day of the week that the clock gave for it.

use vstd::prelude::*;
use crate::calendar::{days_later, is_date_time, is_time_of_day, DateTimeView};
use crate::conf::{
    escalate, is_conf, lemma_get_val, lemma_next_time_is_allowed, spec_get_val, spec_next,
    spec_next_time, spec_possibles, ConfView,
};
use crate::days::{
    lemma_candidate_none_before, lemma_candidate_offset, spec_candidate_offset,
    spec_contains_day, week_day_after,
};
use crate::sets::{after, lemma_minimum_exists, lemma_next_after_some, minimum, nonempty};

verus! {

/// Whether hour, minute and second are allowed ones.
pub open spec fn allows_time(c: ConfView, hour: int, minuter: int, second: int) -> bool {
    c.hours.contains(hour) && c.minuters.contains(minuter) && c.seconds.contains(second)
}

/// Whether the recurrence allows the instant that lies `k` days after the
/// date of `now`, at the given time of day.
pub open spec fn allows_after(
    c: ConfView,
    now: DateTimeView,
    k: int,
    hour: int,
    minuter: int,
    second: int,
) -> bool {
    &&& spec_contains_day(c.days, days_later(now.date, k as nat).day, week_day_after(now.week_day, k))
    &&& allows_time(c, hour, minuter, second)
}

/// Whether one time of day comes before another.
pub open spec fn time_before(a: (int, int, int), b: (int, int, int)) -> bool {
    ||| a.0 < b.0
    ||| a.0 == b.0 && a.1 < b.1
    ||| a.0 == b.0 && a.1 == b.1 && a.2 < b.2
}

/// How many days after the date of `now` the next instant lies.
pub open spec fn spec_next_offset(c: ConfView, now: DateTimeView) -> int {
    spec_candidate_offset(c.days, now.date, now.week_day, spec_next_time(c, now).3)
}

/// What a set of a field has to say of a value: its least member is a
/// member and below all others, and the next member after the value, where
/// there is one, has no member between the value and itself.
proof fn lemma_field(s: Set<int>, lo: int, v: int)
    requires
        nonempty(s),
        forall|x: int| s.contains(x) ==> lo <= x,
    ensures
        s.contains(minimum(s)),
        forall|x: int| s.contains(x) ==> minimum(s) <= x,
        spec_get_val(crate::conf::Possible::Next, s, v).1 ==> forall|x: int|
            s.contains(x) ==> x <= v,
        !spec_get_val(crate::conf::Possible::Next, s, v).1 ==> forall|x: int|
            s.contains(x) && x > v ==> spec_get_val(crate::conf::Possible::Next, s, v).0 <= x,
{
    lemma_minimum_exists(s, lo);
    if nonempty(after(s, v)) {
        lemma_next_after_some(s, v);
    } else {
        assert forall|x: int| s.contains(x) implies x <= v by {
            if x > v {
                assert(after(s, v).contains(x));
            }
        }
    }
}

/// Where the time of day of the next instant has not carried over into the
/// day, today is allowed, that time lies after the time it is now, and no
/// allowed time lies between the two.
pub proof fn lemma_next_time_today(c: ConfView, now: DateTimeView, hour: int, minuter: int, second: int)
    requires
        is_conf(c),
        !spec_next_time(c, now).3,
    ensures
        spec_contains_day(c.days, now.date.day, now.week_day),
        time_before(
            (now.hour, now.minuter, now.second),
            (spec_next_time(c, now).0, spec_next_time(c, now).1, spec_next_time(c, now).2),
        ),
        allows_time(c, hour, minuter, second) && time_before(
            (now.hour, now.minuter, now.second),
            (hour, minuter, second),
        ) ==> !time_before(
            (hour, minuter, second),
            (spec_next_time(c, now).0, spec_next_time(c, now).1, spec_next_time(c, now).2),
        ),
{
    let possibles = spec_possibles(
        spec_contains_day(c.days, now.date.day, now.week_day),
        c.hours.contains(now.hour),
        c.minuters.contains(now.minuter),
    );
    let s = spec_get_val(possibles.3, c.seconds, now.second);
    let m = spec_get_val(escalate(possibles.2, s.1), c.minuters, now.minuter);
    lemma_get_val(possibles.3, c.seconds, now.second);
    lemma_get_val(escalate(possibles.2, s.1), c.minuters, now.minuter);
    lemma_get_val(escalate(possibles.1, m.1), c.hours, now.hour);
    lemma_field(c.seconds, 0, now.second);
    lemma_field(c.minuters, 0, now.minuter);
    lemma_field(c.hours, 0, now.hour);
}

/// Where the time of day of the next instant has carried over into the day,
/// it is the least allowed time, and no allowed time is left today after the
/// time it is now.
pub proof fn lemma_next_time_carried(
    c: ConfView,
    now: DateTimeView,
    hour: int,
    minuter: int,
    second: int,
)
    requires
        is_conf(c),
        spec_next_time(c, now).3,
    ensures
        spec_next_time(c, now).0 == minimum(c.hours),
        spec_next_time(c, now).1 == minimum(c.minuters),
        spec_next_time(c, now).2 == minimum(c.seconds),
        allows_time(c, hour, minuter, second) ==> !time_before(
            (hour, minuter, second),
            (spec_next_time(c, now).0, spec_next_time(c, now).1, spec_next_time(c, now).2),
        ),
        spec_contains_day(c.days, now.date.day, now.week_day) && allows_time(
            c,
            hour,
            minuter,
            second,
        ) ==> !time_before((now.hour, now.minuter, now.second), (hour, minuter, second)),
{
    let possibles = spec_possibles(
        spec_contains_day(c.days, now.date.day, now.week_day),
        c.hours.contains(now.hour),
        c.minuters.contains(now.minuter),
    );
    let s = spec_get_val(possibles.3, c.seconds, now.second);
    let m = spec_get_val(escalate(possibles.2, s.1), c.minuters, now.minuter);
    lemma_get_val(possibles.3, c.seconds, now.second);
    lemma_get_val(escalate(possibles.2, s.1), c.minuters, now.minuter);
    lemma_get_val(escalate(possibles.1, m.1), c.hours, now.hour);
    lemma_field(c.seconds, 0, now.second);
    lemma_field(c.minuters, 0, now.minuter);
    lemma_field(c.hours, 0, now.hour);
}

/// The next instant is an allowed one: so many days after the date that was
/// asked for, on an allowed day, at an allowed time.
pub proof fn lemma_next_is_allowed(c: ConfView, now: DateTimeView)
    requires
        is_conf(c),
        is_date_time(now),
        spec_next(c, now) is Ok,
    ensures
        ({
            let next = spec_next(c, now).unwrap();
            let k = spec_next_offset(c, now);
            &&& k >= 0
            &&& next.date == days_later(now.date, k as nat)
            &&& allows_after(c, now, k, next.hour, next.minuter, next.second)
        }),
{
    lemma_next_time_is_allowed(c, now);
    lemma_candidate_offset(c.days, now.date, now.week_day, spec_next_time(c, now).3);
}

/// No instant between the one that was asked for and the next one is
/// allowed: the next instant is the earliest allowed one after it.
pub proof fn lemma_next_is_earliest(
    c: ConfView,
    now: DateTimeView,
    k: int,
    hour: int,
    minuter: int,
    second: int,
)
    requires
        is_conf(c),
        is_date_time(now),
        spec_next(c, now) is Ok,
        k >= 0,
        is_time_of_day(hour, minuter, second),
        k > 0 || time_before((now.hour, now.minuter, now.second), (hour, minuter, second)),
        ({
            let next = spec_next(c, now).unwrap();
            k < spec_next_offset(c, now) || (k == spec_next_offset(c, now) && time_before(
                (hour, minuter, second),
                (next.hour, next.minuter, next.second),
            ))
        }),
    ensures
        !allows_after(c, now, k, hour, minuter, second),
{
    let time = spec_next_time(c, now);
    let offset = spec_next_offset(c, now);
    lemma_candidate_offset(c.days, now.date, now.week_day, time.3);
    if time.3 {
        lemma_next_time_carried(c, now, hour, minuter, second);
        if k == 0 {
            assert(days_later(now.date, 0) == now.date);
            assert(week_day_after(now.week_day, 0) == now.week_day);
        } else if k < offset {
            lemma_candidate_none_before(c.days, now.date, now.week_day, time.3, k);
        }
    } else {
        lemma_next_time_today(c, now, hour, minuter, second);
        assert(offset == 0);
    }
}

} // verus!
