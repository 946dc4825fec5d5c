//! Field sets: the allowed values of one field of a recurrence (seconds,
//! minutes, hours, days of the month, days of the week).
//!
//! Each of the five types holds a set that is never empty and never leaves
//! the field's domain. [`Operator`] is what they have in common.

use vstd::prelude::*;
use vstd::pervasive::unreached;
use crate::bits::{mask_contains, mask_insert, mask_view, lemma_mask_empty};
use crate::bound::{resolve_bytes, Bound};
use crate::error::SchedulerError;
use crate::sets::{
    ints_of, is_ascending, lemma_minimum_is, lemma_next_after_is, lemma_next_after_none, lists,
    minimum, next_after, nonempty, span, spec_add, spec_add_array, spec_add_range, spec_finalize,
    valid_members, within,
};

verus! {

/// How an operation that builds a field set ended, in the model: with the
/// members of the set it made, or with its error.
pub open spec fn outcome<T: View<V = Set<int>>>(r: Result<T, SchedulerError>) -> Result<
    Set<int>,
    SchedulerError,
> {
    match r {
        Ok(t) => Ok(t@),
        Err(e) => Err(e),
    }
}

/// Whether an optional byte is the optional integer of the model.
pub open spec fn same_value(r: Option<u8>, want: Option<int>) -> bool {
    match (r, want) {
        (Some(a), Some(b)) => a as int == b,
        (None, None) => true,
        _ => false,
    }
}

/// The first member of `mask` in `from..=to`, or `None` where there is none.
fn scan(mask: u64, from: u8, to: u8) -> (r: Option<u8>)
    requires
        to < 64,
    ensures
        match r {
            Some(m) => from <= m <= to && mask_view(mask).contains(m as int) && forall|x: int|
                from <= x < m ==> !mask_view(mask).contains(x),
            None => forall|x: int| from <= x <= to ==> !mask_view(mask).contains(x),
        },
{
    let mut i: u8 = from;
    while i <= to
        invariant
            to < 64,
            from <= i,
            forall|x: int| from <= x < i ==> !mask_view(mask).contains(x),
        decreases 64 - i,
    {
        if mask_contains(mask, i) {
            return Some(i);
        }
        i = i + 1;
    }
    None
}

/// Checks a raw mask against the domain `lo..=hi`.
pub(crate) fn checked_mask(val: u64, lo: u8, hi: u8) -> (r: Result<u64, SchedulerError>)
    ensures
        match r {
            Ok(m) => m == val && spec_finalize(mask_view(val), lo as int, hi as int) is Ok,
            Err(e) => spec_finalize(mask_view(val), lo as int, hi as int) == Err::<
                Set<int>,
                SchedulerError,
            >(e),
        },
{
    let mut any: bool = false;
    let mut stray: bool = false;
    let mut i: u8 = 0;
    while i < 64
        invariant
            i <= 64,
            any <==> exists|x: int| 0 <= x < i && mask_view(val).contains(x),
            stray <==> exists|x: int|
                0 <= x < i && mask_view(val).contains(x) && !(lo <= x <= hi),
        decreases 64 - i,
    {
        if mask_contains(val, i) {
            any = true;
            if i < lo || i > hi {
                stray = true;
            }
        }
        i = i + 1;
    }
    if !any {
        assert(!nonempty(mask_view(val)));
        Err(SchedulerError::EmptySet)
    } else if stray {
        assert(!within(mask_view(val), lo as int, hi as int));
        Err(SchedulerError::OutOfRange)
    } else {
        let ghost w = choose|x: int| 0 <= x < 64 && mask_view(val).contains(x);
        assert(mask_view(val).contains(w));
        assert(nonempty(mask_view(val)));
        assert(within(mask_view(val), lo as int, hi as int));
        Ok(val)
    }
}

/// The text for a field of which every value is allowed, made by `format!`:
/// the word `all`, the field's name, and a full stop.
#[verifier::external_body]
fn text_of_all(label: &str) -> (r: String)
    ensures
        r@ == "all "@ + label@ + "."@,
{
    format!("all {}.", label)
}

/// The text that `format!` makes of a field's name and a list of values with
/// the pattern `{}: {:?}.`: the name, a colon, the list as `Vec` prints
/// itself for debugging, and a full stop.
pub uninterp spec fn text_of_members(label: Seq<char>, members: Seq<u8>) -> Seq<char>;

/// The text for a field of which some values are allowed, made by `format!`.
#[verifier::external_body]
fn text_of_list(label: &str, members: &Vec<u8>) -> (r: String)
    ensures
        r@ == text_of_members(label@, members@),
{
    format!("{}: {:?}.", label, members)
}

/// What the five field sets have in common: a domain `MIN..=MAX`, a set of
/// members inside it that is never empty, ways to start a set and to widen
/// it, and the queries that the search for the next instant needs.
pub trait Operator: Sized + View<V = Set<int>> {
    /// The least value of the field's domain.
    const MIN: u8;

    /// The greatest value of the field's domain.
    const MAX: u8;

    /// The least value of the field's domain, in contracts.
    spec fn spec_min() -> int;

    /// The greatest value of the field's domain, in contracts.
    spec fn spec_max() -> int;

    /// The set has a member and every member lies in the domain.
    spec fn wf(&self) -> bool;

    /// The field's name, in contracts.
    spec fn spec_label() -> Seq<char>;

    /// The field's name.
    fn label() -> (r: &'static str)
        ensures
            r@ == Self::spec_label(),
    ;

    /// The domain is not empty and fits the representation.
    proof fn lemma_domain()
        ensures
            Self::MIN == Self::spec_min(),
            Self::MAX == Self::spec_max(),
            0 <= Self::spec_min() <= Self::spec_max() < 64,
    ;

    /// The members as a bit mask: bit `v` is set exactly when `v` is a member.
    fn _val(&self) -> (r: u64)
        requires
            self.wf(),
        ensures
            mask_view(r) == self@,
            valid_members(self@, Self::spec_min(), Self::spec_max()),
    ;

    /// The field set whose members are the bits of `val`. An empty mask is
    /// refused with `EmptySet`, a bit outside the domain with `OutOfRange`.
    fn _from_val(val: u64) -> (r: Result<Self, SchedulerError>)
        ensures
            r matches Ok(t) ==> t.wf(),
            outcome(r) == spec_finalize(mask_view(val), Self::spec_min(), Self::spec_max()),
    ;

    /// Whether `index` lies in the field's domain.
    fn check(index: u8) -> (r: Result<(), SchedulerError>)
        ensures
            r == if Self::spec_min() <= index <= Self::spec_max() {
                Ok::<(), SchedulerError>(())
            } else {
                Err::<(), SchedulerError>(SchedulerError::OutOfRange)
            },
    {
        proof {
            Self::lemma_domain();
        }
        if index >= Self::MIN && index <= Self::MAX {
            Ok(())
        } else {
            Err(SchedulerError::OutOfRange)
        }
    }

    /// The set that holds `val` alone.
    fn default_value(val: u8) -> (r: Result<Self, SchedulerError>)
        ensures
            r matches Ok(t) ==> t.wf(),
            outcome(r) == spec_add(Set::empty(), Self::spec_min(), Self::spec_max(), val as int),
    {
        proof {
            Self::lemma_domain();
            lemma_mask_empty();
        }
        if val < Self::MIN || val > Self::MAX {
            return Err(SchedulerError::OutOfRange);
        }
        let m = mask_insert(0, val);
        assert(mask_view(m).contains(val as int));
        Self::_from_val(m)
    }

    /// The set that holds the values between the two bounds.
    fn default_range(start: Bound<u8>, end: Bound<u8>) -> (r: Result<Self, SchedulerError>)
        ensures
            r matches Ok(t) ==> t.wf(),
            outcome(r) == spec_add_range(
                Set::empty(),
                Self::spec_min(),
                Self::spec_max(),
                start.first(Self::spec_min()),
                end.last(Self::spec_max()),
            ),
    {
        proof {
            Self::lemma_domain();
            lemma_mask_empty();
        }
        match resolve_bytes(start, end, Self::MIN, Self::MAX) {
            None => Err(SchedulerError::InvalidRange),
            Some((first, last)) => {
                if first < Self::MIN || last > Self::MAX {
                    return Err(SchedulerError::OutOfRange);
                }
                let m = fill(0, first, last);
                assert(mask_view(m).contains(first as int));
                Self::_from_val(m)
            },
        }
    }

    /// The set that holds the whole domain.
    fn default_all() -> (r: Self)
        ensures
            r.wf(),
            r@ == span(Self::spec_min(), Self::spec_max()),
    {
        proof {
            Self::lemma_domain();
            lemma_mask_empty();
        }
        let m = fill(0, Self::MIN, Self::MAX);
        assert(mask_view(m).contains(Self::spec_min()));
        match Self::_from_val(m) {
            Ok(s) => s,
            Err(_) => unreached(),
        }
    }

    /// The set with every value of `vals` added. One value outside the domain
    /// refuses them all.
    fn add_array(self, vals: &[u8]) -> (r: Result<Self, SchedulerError>)
        requires
            self.wf(),
        ensures
            r matches Ok(t) ==> t.wf(),
            outcome(r) == spec_add_array(self@, Self::spec_min(), Self::spec_max(), ints_of(vals@)),
    {
        proof {
            Self::lemma_domain();
        }
        let ghost ints = ints_of(vals@);
        let mut i: usize = 0;
        while i < vals.len()
            invariant
                i <= vals.len(),
                ints == ints_of(vals@),
                Self::MIN == Self::spec_min(),
                Self::MAX == Self::spec_max(),
                forall|j: int| 0 <= j < i ==> Self::MIN <= #[trigger] ints[j] <= Self::MAX,
            decreases vals.len() - i,
        {
            if vals[i] < Self::MIN || vals[i] > Self::MAX {
                assert(!(Self::MIN <= ints[i as int] <= Self::MAX));
                return Err(SchedulerError::OutOfRange);
            }
            i = i + 1;
        }
        let mut m = self._val();
        let mut k: usize = 0;
        while k < vals.len()
            invariant
                k <= vals.len(),
                Self::MAX < 64,
                ints == ints_of(vals@),
                forall|j: int| 0 <= j < vals.len() ==> Self::MIN <= #[trigger] ints[j] <= Self::MAX,
                mask_view(m) == self@.union(ints.subrange(0, k as int).to_set()),
            decreases vals.len() - k,
        {
            let ghost before = ints.subrange(0, k as int);
            let ghost now = ints.subrange(0, k + 1);
            assert(Self::MIN <= ints[k as int] <= Self::MAX);
            m = mask_insert(m, vals[k]);
            proof {
                assert forall|x: int| now.to_set().contains(x) == before.to_set().insert(
                    ints[k as int],
                ).contains(x) by {
                    if now.contains(x) {
                        let j = choose|j: int| 0 <= j < now.len() && now[j] == x;
                        if j < k {
                            assert(before[j] == x);
                        }
                    }
                    if before.contains(x) {
                        let j = choose|j: int| 0 <= j < before.len() && before[j] == x;
                        assert(now[j] == x);
                    }
                    if x == ints[k as int] {
                        assert(now[k as int] == x);
                    }
                }
                assert(now.to_set() == before.to_set().insert(ints[k as int]));
            }
            k = k + 1;
        }
        assert(ints.subrange(0, vals.len() as int) == ints);
        let ghost v0 = choose|v: int| self@.contains(v);
        assert(mask_view(m).contains(v0));
        assert forall|x: int| mask_view(m).contains(x) implies Self::MIN <= x <= Self::MAX by {
            if ints.contains(x) {
                let j = choose|j: int| 0 <= j < ints.len() && ints[j] == x;
                assert(Self::MIN <= ints[j] <= Self::MAX);
            }
        }
        Self::_from_val(m)
    }

    /// The set with `index` added.
    fn add(self, index: u8) -> (r: Result<Self, SchedulerError>)
        requires
            self.wf(),
        ensures
            r matches Ok(t) ==> t.wf(),
            outcome(r) == spec_add(self@, Self::spec_min(), Self::spec_max(), index as int),
    {
        proof {
            Self::lemma_domain();
        }
        if index < Self::MIN || index > Self::MAX {
            return Err(SchedulerError::OutOfRange);
        }
        let m = mask_insert(self._val(), index);
        assert(mask_view(m).contains(index as int));
        Self::_from_val(m)
    }

    /// The set with the values between the two bounds added.
    fn add_range(self, start: Bound<u8>, end: Bound<u8>) -> (r: Result<Self, SchedulerError>)
        requires
            self.wf(),
        ensures
            r matches Ok(t) ==> t.wf(),
            outcome(r) == spec_add_range(
                self@,
                Self::spec_min(),
                Self::spec_max(),
                start.first(Self::spec_min()),
                end.last(Self::spec_max()),
            ),
    {
        proof {
            Self::lemma_domain();
        }
        match resolve_bytes(start, end, Self::MIN, Self::MAX) {
            None => Err(SchedulerError::InvalidRange),
            Some((first, last)) => {
                if first < Self::MIN || last > Self::MAX {
                    return Err(SchedulerError::OutOfRange);
                }
                let m = fill(self._val(), first, last);
                assert(mask_view(m).contains(first as int));
                Self::_from_val(m)
            },
        }
    }

    /// The members in ascending order.
    fn to_vec(&self) -> (r: Vec<u8>)
        requires
            self.wf(),
        ensures
            lists(ints_of(r@), self@),
            forall|i: int| 0 <= i < r.len() ==> Self::spec_min() <= #[trigger] r[i] <= Self::spec_max(),
    {
        proof {
            Self::lemma_domain();
        }
        let val = self._val();
        let mut res: Vec<u8> = Vec::new();
        let mut first: u8 = Self::MIN;
        while first <= Self::MAX
            invariant
                Self::MIN <= first <= Self::MAX + 1,
                Self::MAX < 64,
                Self::MIN == Self::spec_min(),
                Self::MAX == Self::spec_max(),
                mask_view(val) == self@,
                within(self@, Self::spec_min(), Self::spec_max()),
                is_ascending(ints_of(res@)),
                forall|i: int| 0 <= i < res.len() ==> Self::MIN <= #[trigger] res[i] < first,
                forall|i: int| 0 <= i < res.len() ==> self@.contains(#[trigger] ints_of(res@)[i]),
                forall|v: int| self@.contains(v) && v < first ==> ints_of(res@).contains(v),
            decreases 64 - first,
        {
            if mask_contains(val, first) {
                let ghost before = ints_of(res@);
                res.push(first);
                proof {
                    let now = ints_of(res@);
                    assert forall|i: int| 0 <= i < before.len() implies now[i] == before[i] by {}
                    assert(now[res.len() - 1] == first);
                    assert forall|v: int| self@.contains(v) && v < first + 1 implies now.contains(
                        v,
                    ) by {
                        if v < first {
                            let j = choose|j: int| 0 <= j < before.len() && before[j] == v;
                            assert(now[j] == v);
                        } else {
                            assert(now[res.len() - 1] == v);
                        }
                    }
                }
            }
            first = first + 1;
        }
        res
    }

    /// Whether every value of the domain is a member.
    fn is_all(&self) -> (r: bool)
        requires
            self.wf(),
        ensures
            r == (self@ == span(Self::spec_min(), Self::spec_max())),
    {
        proof {
            Self::lemma_domain();
        }
        let val = self._val();
        let mut v: u8 = Self::MIN;
        while v <= Self::MAX
            invariant
                Self::MIN <= v <= Self::MAX + 1,
                Self::MAX < 64,
                Self::MIN == Self::spec_min(),
                Self::MAX == Self::spec_max(),
                mask_view(val) == self@,
                forall|x: int| Self::MIN <= x < v ==> self@.contains(x),
            decreases 64 - v,
        {
            if !mask_contains(val, v) {
                assert(span(Self::spec_min(), Self::spec_max()).contains(v as int));
                return false;
            }
            v = v + 1;
        }
        assert(self@ =~= span(Self::spec_min(), Self::spec_max()));
        true
    }

    /// The set in words: `all seconds.` where every value is allowed, else
    /// the field's name and the members in ascending order.
    fn describe(&self) -> (r: String)
        requires
            self.wf(),
        ensures
            self@ == span(Self::spec_min(), Self::spec_max()) ==> r@ == "all "@
                + Self::spec_label() + "."@,
            self@ != span(Self::spec_min(), Self::spec_max()) ==> exists|members: Seq<u8>|
                lists(ints_of(members), self@) && r@ == text_of_members(
                    Self::spec_label(),
                    members,
                ),
    {
        if self.is_all() {
            text_of_all(Self::label())
        } else {
            let members = self.to_vec();
            text_of_list(Self::label(), &members)
        }
    }

    /// Whether `index` is a member. A value outside the domain is none.
    fn contain(&self, index: u8) -> (r: bool)
        requires
            self.wf(),
        ensures
            r == self@.contains(index as int),
    {
        mask_contains(self._val(), index)
    }

    /// The least member; `index` itself where it is a member; and the least
    /// member greater than `index`.
    fn min_self_next(&self, index: u8) -> (r: (u8, Option<u8>, Option<u8>))
        requires
            self.wf(),
        ensures
            r.0 == minimum(self@),
            r.1 == if self@.contains(index as int) {
                Some(index)
            } else {
                None
            },
            same_value(r.2, next_after(self@, index as int)),
    {
        let self_val = if self.contain(index) {
            Some(index)
        } else {
            None
        };
        let min = self.min_val();
        let next = self.next(index);
        (min, self_val, next)
    }

    /// The least member greater than `index`, or `None` where no member is
    /// greater: the search then has to move on to the next cycle of the
    /// coarser field.
    fn next(&self, index: u8) -> (r: Option<u8>)
        requires
            self.wf(),
        ensures
            same_value(r, next_after(self@, index as int)),
            r matches Some(n) ==> index < n && Self::spec_min() <= n <= Self::spec_max()
                && self@.contains(n as int),
    {
        proof {
            Self::lemma_domain();
        }
        let val = self._val();
        if index >= Self::MAX {
            proof {
                lemma_next_after_none(self@, index as int);
            }
            return None;
        }
        let found = scan(val, index + 1, Self::MAX);
        proof {
            match found {
                Some(n) => {
                    lemma_next_after_is(self@, index as int, n as int);
                },
                None => {
                    lemma_next_after_none(self@, index as int);
                },
            }
        }
        found
    }

    /// The least member.
    fn min_val(&self) -> (r: u8)
        requires
            self.wf(),
        ensures
            r == minimum(self@),
            self@.contains(r as int),
            Self::spec_min() <= r <= Self::spec_max(),
    {
        proof {
            Self::lemma_domain();
        }
        let val = self._val();
        match scan(val, Self::MIN, Self::MAX) {
            Some(m) => {
                proof {
                    lemma_minimum_is(self@, m as int);
                }
                m
            },
            None => {
                proof {
                    let v = choose|v: int| self@.contains(v);
                    assert(self@.contains(v));
                }
                unreached()
            },
        }
    }
}

/// The mask with every value of `first..=last` added.
fn fill(mask: u64, first: u8, last: u8) -> (r: u64)
    requires
        first <= last < 64,
    ensures
        mask_view(r) == mask_view(mask).union(span(first as int, last as int)),
{
    let mut m = mask;
    let mut v: u8 = first;
    while v <= last
        invariant
            first <= v <= last + 1,
            last < 64,
            mask_view(m) == mask_view(mask).union(span(first as int, v - 1)),
        decreases last + 1 - v,
    {
        m = mask_insert(m, v);
        v = v + 1;
    }
    m
}

/// The allowed seconds of a minute: a set inside `0..=59`.
#[derive(Clone, Copy, Debug)]
pub struct Seconds(u64);

impl View for Seconds {
    type V = Set<int>;

    closed spec fn view(&self) -> Set<int> {
        mask_view(self.0)
    }
}

impl Operator for Seconds {
    const MIN: u8 = 0;

    const MAX: u8 = 59;

    open spec fn spec_min() -> int {
        0
    }

    open spec fn spec_max() -> int {
        59
    }

    open spec fn wf(&self) -> bool {
        valid_members(self@, 0, 59)
    }

    open spec fn spec_label() -> Seq<char> {
        "seconds"@
    }

    fn label() -> (r: &'static str) {
        "seconds"
    }

    proof fn lemma_domain() {
        assert(Self::MIN == 0 && Self::MAX == 59);
    }

    fn _val(&self) -> (r: u64) {
        assert(Self::MIN == 0 && Self::MAX == 59);
        self.0
    }

    fn _from_val(val: u64) -> (r: Result<Self, SchedulerError>) {
        assert(Self::MIN == 0 && Self::MAX == 59);
        match checked_mask(val, 0, 59) {
            Ok(m) => Ok(Seconds(m)),
            Err(e) => Err(e),
        }
    }
}

/// The allowed minutes of an hour: a set inside `0..=59`.
#[derive(Clone, Copy, Debug)]
pub struct Minuters(u64);

impl View for Minuters {
    type V = Set<int>;

    closed spec fn view(&self) -> Set<int> {
        mask_view(self.0)
    }
}

impl Operator for Minuters {
    const MIN: u8 = 0;

    const MAX: u8 = 59;

    open spec fn spec_min() -> int {
        0
    }

    open spec fn spec_max() -> int {
        59
    }

    open spec fn wf(&self) -> bool {
        valid_members(self@, 0, 59)
    }

    open spec fn spec_label() -> Seq<char> {
        "minuters"@
    }

    fn label() -> (r: &'static str) {
        "minuters"
    }

    proof fn lemma_domain() {
        assert(Self::MIN == 0 && Self::MAX == 59);
    }

    fn _val(&self) -> (r: u64) {
        assert(Self::MIN == 0 && Self::MAX == 59);
        self.0
    }

    fn _from_val(val: u64) -> (r: Result<Self, SchedulerError>) {
        assert(Self::MIN == 0 && Self::MAX == 59);
        match checked_mask(val, 0, 59) {
            Ok(m) => Ok(Minuters(m)),
            Err(e) => Err(e),
        }
    }
}

/// The allowed hours of a day: a set inside `0..=23`.
#[derive(Clone, Copy, Debug)]
pub struct Hours(u64);

impl View for Hours {
    type V = Set<int>;

    closed spec fn view(&self) -> Set<int> {
        mask_view(self.0)
    }
}

impl Operator for Hours {
    const MIN: u8 = 0;

    const MAX: u8 = 23;

    open spec fn spec_min() -> int {
        0
    }

    open spec fn spec_max() -> int {
        23
    }

    open spec fn wf(&self) -> bool {
        valid_members(self@, 0, 23)
    }

    open spec fn spec_label() -> Seq<char> {
        "hours"@
    }

    fn label() -> (r: &'static str) {
        "hours"
    }

    proof fn lemma_domain() {
        assert(Self::MIN == 0 && Self::MAX == 23);
    }

    fn _val(&self) -> (r: u64) {
        assert(Self::MIN == 0 && Self::MAX == 23);
        self.0
    }

    fn _from_val(val: u64) -> (r: Result<Self, SchedulerError>) {
        assert(Self::MIN == 0 && Self::MAX == 23);
        match checked_mask(val, 0, 23) {
            Ok(m) => Ok(Hours(m)),
            Err(e) => Err(e),
        }
    }
}

/// The allowed days of a month: a set inside `1..=31`.
#[derive(Clone, Copy, Debug)]
pub struct MonthDays(u64);

impl View for MonthDays {
    type V = Set<int>;

    closed spec fn view(&self) -> Set<int> {
        mask_view(self.0)
    }
}

impl Operator for MonthDays {
    const MIN: u8 = 1;

    const MAX: u8 = 31;

    open spec fn spec_min() -> int {
        1
    }

    open spec fn spec_max() -> int {
        31
    }

    open spec fn wf(&self) -> bool {
        valid_members(self@, 1, 31)
    }

    open spec fn spec_label() -> Seq<char> {
        "month days"@
    }

    fn label() -> (r: &'static str) {
        "month days"
    }

    proof fn lemma_domain() {
        assert(Self::MIN == 1 && Self::MAX == 31);
    }

    fn _val(&self) -> (r: u64) {
        assert(Self::MIN == 1 && Self::MAX == 31);
        self.0
    }

    fn _from_val(val: u64) -> (r: Result<Self, SchedulerError>) {
        assert(Self::MIN == 1 && Self::MAX == 31);
        match checked_mask(val, 1, 31) {
            Ok(m) => Ok(MonthDays(m)),
            Err(e) => Err(e),
        }
    }
}

/// The allowed days of a week, Monday being 1 and Sunday 7: a set inside `1..=7`.
#[derive(Clone, Copy, Debug)]
pub struct WeekDays(u64);

impl View for WeekDays {
    type V = Set<int>;

    closed spec fn view(&self) -> Set<int> {
        mask_view(self.0)
    }
}

impl Operator for WeekDays {
    const MIN: u8 = 1;

    const MAX: u8 = 7;

    open spec fn spec_min() -> int {
        1
    }

    open spec fn spec_max() -> int {
        7
    }

    open spec fn wf(&self) -> bool {
        valid_members(self@, 1, 7)
    }

    open spec fn spec_label() -> Seq<char> {
        "week days"@
    }

    fn label() -> (r: &'static str) {
        "week days"
    }

    proof fn lemma_domain() {
        assert(Self::MIN == 1 && Self::MAX == 7);
    }

    fn _val(&self) -> (r: u64) {
        assert(Self::MIN == 1 && Self::MAX == 7);
        self.0
    }

    fn _from_val(val: u64) -> (r: Result<Self, SchedulerError>) {
        assert(Self::MIN == 1 && Self::MAX == 7);
        match checked_mask(val, 1, 7) {
            Ok(m) => Ok(WeekDays(m)),
            Err(e) => Err(e),
        }
    }
}

} // verus!
