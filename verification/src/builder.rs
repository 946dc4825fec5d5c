//! Field set builders: what has been selected so far of a domain of `S`
//! values that starts at `F`. A builder may hold nothing; finalizing it gives
//! a field set, or says why it cannot.

use vstd::prelude::*;
use crate::bits::{lemma_mask_empty, mask_insert, mask_view};
use crate::bound::{resolve_words, Bound};
use crate::error::SchedulerError;
use crate::field::{outcome, Operator};
use crate::sets::{
    ints_of_words, is_ascending, lists, nonempty, span, spec_add, spec_add_array, spec_add_range,
    spec_finalize, within,
};

verus! {

/// Whether a domain of `size` values that starts at `first` has a value and
/// ends on a value that a machine word can hold.
pub open spec fn domain_fits(size: int, first: int) -> bool {
    1 <= size && first + size - 1 <= usize::MAX
}

/// Whether a change in place ended as the model says: with the new members
/// where it went through, with the error and the members as they were where
/// it did not.
pub open spec fn changed(
    r: Result<(), SchedulerError>,
    before: Set<int>,
    after: Set<int>,
    want: Result<Set<int>, SchedulerError>,
) -> bool {
    match (r, want) {
        (Ok(_), Ok(w)) => after == w,
        (Err(e), Err(f)) => e == f && after == before,
        _ => false,
    }
}

/// Whether `v` is among the first `k` values of `vals`.
spec fn added(vals: Seq<int>, k: int, v: int) -> bool {
    exists|a: int| 0 <= a < k && vals[a] == v
}

/// One value of the domain of `S` values that starts at `F`.
#[derive(Clone, Copy, Debug)]
pub struct CommonTime<const S: usize, const F: usize>(usize);

impl<const S: usize, const F: usize> View for CommonTime<S, F> {
    type V = int;

    closed spec fn view(&self) -> int {
        self.0 as int
    }
}

impl<const S: usize, const F: usize> CommonTime<S, F> {
    /// The value lies in the domain.
    pub open spec fn wf(&self) -> bool {
        F <= self@ < F + S
    }

    /// The value `i`; `OutOfRange` where the domain does not hold it.
    pub fn new(i: usize) -> (r: Result<Self, SchedulerError>)
        ensures
            match r {
                Ok(t) => t.wf() && t@ == i,
                Err(e) => e == SchedulerError::OutOfRange && !(F <= i < F + S),
            },
    {
        if i >= F && i - F < S {
            Ok(Self(i))
        } else {
            Err(SchedulerError::OutOfRange)
        }
    }

    /// Another value of the same domain.
    pub fn from_u32(&self, i: usize) -> (r: Result<Self, SchedulerError>)
        ensures
            match r {
                Ok(t) => t.wf() && t@ == i,
                Err(e) => e == SchedulerError::OutOfRange && !(F <= i < F + S),
            },
    {
        Self::new(i)
    }

    /// Whether the domain holds `i`.
    pub fn check(&self, i: usize) -> (r: bool)
        ensures
            r == (F <= i < F + S),
    {
        i >= F && i - F < S
    }

    /// The value.
    pub fn value(&self) -> (r: usize)
        ensures
            r == self@,
    {
        self.0
    }
}

/// What has been selected of the domain of `S` values that starts at `F`.
#[derive(Clone, Debug)]
pub struct CommonTimesBuilder<const S: usize, const F: usize>(Vec<bool>);

/// What has been selected of the seconds of a minute.
pub type SecondsBuilder = CommonTimesBuilder<60, 0>;

/// What has been selected of the minutes of an hour.
pub type MinutersBuilder = CommonTimesBuilder<60, 0>;

/// What has been selected of the hours of a day.
pub type HoursBuilder = CommonTimesBuilder<24, 0>;

/// What has been selected of the days of a week.
pub type WeekDaysBuilder = CommonTimesBuilder<7, 1>;

/// What has been selected of the days of a month.
pub type MonthDaysBuilder = CommonTimesBuilder<31, 1>;

impl<const S: usize, const F: usize> View for CommonTimesBuilder<S, F> {
    type V = Set<int>;

    closed spec fn view(&self) -> Set<int> {
        Set::new(|v: int| F <= v < F + S && self.0@[v - F])
    }
}

impl<const S: usize, const F: usize> CommonTimesBuilder<S, F> {
    /// The builder keeps one flag for each value of its domain. It may hold
    /// nothing; what it holds lies in the domain.
    pub closed spec fn wf(&self) -> bool {
        self.0@.len() == S && domain_fits(S as int, F as int)
    }

    /// The first value of the domain.
    pub open spec fn spec_first() -> int {
        F as int
    }

    /// The last value of the domain.
    pub open spec fn spec_last() -> int {
        F + S - 1
    }

    /// Every member lies in the domain.
    pub proof fn lemma_within(&self)
        ensures
            within(self@, Self::spec_first(), Self::spec_last()),
    {
    }

    /// The builder whose flags are all `flag`.
    fn filled(flag: bool) -> (r: Self)
        requires
            domain_fits(S as int, F as int),
        ensures
            r.wf(),
            r@ == if flag {
                span(Self::spec_first(), Self::spec_last())
            } else {
                Set::<int>::empty()
            },
    {
        let mut flags: Vec<bool> = Vec::new();
        let mut i: usize = 0;
        while i < S
            invariant
                i <= S,
                flags.len() == i,
                forall|j: int| 0 <= j < i ==> flags@[j] == flag,
            decreases S - i,
        {
            flags.push(flag);
            i = i + 1;
        }
        let r = CommonTimesBuilder(flags);
        assert(r@ =~= if flag {
            span(Self::spec_first(), Self::spec_last())
        } else {
            Set::<int>::empty()
        });
        r
    }

    /// The builder that holds nothing.
    pub fn default() -> (r: Self)
        requires
            domain_fits(S as int, F as int),
        ensures
            r.wf(),
            r@ == Set::<int>::empty(),
    {
        Self::filled(false)
    }

    /// The builder that holds `val` alone.
    pub fn default_value(val: usize) -> (r: Result<Self, SchedulerError>)
        requires
            domain_fits(S as int, F as int),
        ensures
            r matches Ok(t) ==> t.wf(),
            outcome(r) == spec_add(Set::empty(), Self::spec_first(), Self::spec_last(), val as int),
    {
        let ins = Self::default();
        ins.add(val)
    }

    /// The builder that holds the values between the two bounds.
    pub fn default_range(start: Bound<usize>, end: Bound<usize>) -> (r: Result<
        Self,
        SchedulerError,
    >)
        requires
            domain_fits(S as int, F as int),
        ensures
            r matches Ok(t) ==> t.wf(),
            outcome(r) == spec_add_range(
                Set::empty(),
                Self::spec_first(),
                Self::spec_last(),
                start.first(Self::spec_first()),
                end.last(Self::spec_last()),
            ),
    {
        let ins = Self::default();
        ins.add_range(start, end)
    }

    /// The builder that holds the whole domain.
    pub fn default_all() -> (r: Self)
        requires
            domain_fits(S as int, F as int),
        ensures
            r.wf(),
            r@ == span(Self::spec_first(), Self::spec_last()),
    {
        Self::filled(true)
    }

    /// Whether the domain holds `index`.
    pub fn check(&self, index: usize) -> (r: bool)
        ensures
            r == (Self::spec_first() <= index <= Self::spec_last()),
    {
        index >= F && index - F < S
    }

    /// Whether `index` has been selected.
    pub fn contain(&self, index: usize) -> (r: bool)
        requires
            self.wf(),
        ensures
            r == self@.contains(index as int),
    {
        index >= F && index - F < S && self.0[index - F]
    }

    /// Adds `index`. Where the domain does not hold it, nothing changes.
    pub fn insert(&mut self, index: usize) -> (r: Result<(), SchedulerError>)
        requires
            old(self).wf(),
        ensures
            final(self).wf(),
            changed(
                r,
                old(self)@,
                final(self)@,
                spec_add(old(self)@, Self::spec_first(), Self::spec_last(), index as int),
            ),
    {
        if !self.check(index) {
            return Err(SchedulerError::OutOfRange);
        }
        self.0.set(index - F, true);
        assert(self@ =~= old(self)@.insert(index as int));
        Ok(())
    }

    /// Adds the values between the two bounds. Where the range holds no value
    /// or leaves the domain, nothing changes.
    pub fn insert_range(&mut self, start: Bound<usize>, end: Bound<usize>) -> (r: Result<
        (),
        SchedulerError,
    >)
        requires
            old(self).wf(),
        ensures
            final(self).wf(),
            changed(
                r,
                old(self)@,
                final(self)@,
                spec_add_range(
                    old(self)@,
                    Self::spec_first(),
                    Self::spec_last(),
                    start.first(Self::spec_first()),
                    end.last(Self::spec_last()),
                ),
            ),
    {
        let ghost before = self.0@;
        match resolve_words(start, end, F, F + (S - 1)) {
            None => Err(SchedulerError::InvalidRange),
            Some((first, last)) => {
                if first < F || last - F >= S {
                    return Err(SchedulerError::OutOfRange);
                }
                let from: usize = first - F;
                let to: usize = last - F;
                let mut i: usize = from;
                while i <= to
                    invariant
                        from <= i <= to + 1,
                        to < S,
                        self.0.len() == S,
                        before.len() == S,
                        forall|j: int|
                            0 <= j < S ==> #[trigger] self.0@[j] == (before[j] || from <= j < i),
                    decreases to + 1 - i,
                {
                    self.0.set(i, true);
                    i = i + 1;
                }
                assert forall|v: int| self@.contains(v) == old(self)@.union(
                    span(first as int, last as int),
                ).contains(v) by {
                    if F <= v < F + S {
                        assert(self.0@[v - F] == (before[v - F] || from <= v - F < to + 1));
                    }
                }
                assert(self@ =~= old(self)@.union(span(first as int, last as int)));
                Ok(())
            },
        }
    }

    /// Adds every value of `vals`. Where one of them lies outside the domain,
    /// nothing changes.
    pub fn insert_array(&mut self, vals: &[usize]) -> (r: Result<(), SchedulerError>)
        requires
            old(self).wf(),
        ensures
            final(self).wf(),
            changed(
                r,
                old(self)@,
                final(self)@,
                spec_add_array(
                    old(self)@,
                    Self::spec_first(),
                    Self::spec_last(),
                    ints_of_words(vals@),
                ),
            ),
    {
        let ghost ints = ints_of_words(vals@);
        let mut i: usize = 0;
        while i < vals.len()
            invariant
                i <= vals.len(),
                ints == ints_of_words(vals@),
                self.wf(),
                self@ == old(self)@,
                forall|j: int| 0 <= j < i ==> F <= #[trigger] ints[j] < F + S,
            decreases vals.len() - i,
        {
            if !self.check(vals[i]) {
                assert(!(F <= ints[i as int] < F + S));
                return Err(SchedulerError::OutOfRange);
            }
            i = i + 1;
        }
        let ghost before = self.0@;
        let mut k: usize = 0;
        while k < vals.len()
            invariant
                k <= vals.len(),
                ints == ints_of_words(vals@),
                self.0.len() == S,
                before.len() == S,
                forall|j: int| 0 <= j < vals.len() ==> F <= #[trigger] ints[j] < F + S,
                forall|j: int|
                    0 <= j < S ==> #[trigger] self.0@[j] == (before[j] || added(
                        ints,
                        k as int,
                        F + j,
                    )),
            decreases vals.len() - k,
        {
            assert(F <= ints[k as int] < F + S);
            let ghost earlier = self.0@;
            self.0.set(vals[k] - F, true);
            proof {
                assert forall|j: int| 0 <= j < S implies #[trigger] self.0@[j] == (before[j]
                    || added(ints, k + 1, F + j)) by {
                    assert(earlier[j] == (before[j] || added(ints, k as int, F + j)));
                    if added(ints, k as int, F + j) {
                        let a = choose|a: int| 0 <= a < k && ints[a] == F + j;
                        assert(0 <= a < k + 1 && ints[a] == F + j);
                    }
                    if j == vals[k as int] - F {
                        assert(ints[k as int] == F + j);
                    }
                    if added(ints, k + 1, F + j) && !added(ints, k as int, F + j) {
                        let a = choose|a: int| 0 <= a < k + 1 && ints[a] == F + j;
                        assert(a == k);
                    }
                }
            }
            k = k + 1;
        }
        assert(self@ =~= old(self)@.union(ints.to_set())) by {
            assert forall|v: int| self@.contains(v) == old(self)@.union(ints.to_set()).contains(
                v,
            ) by {
                if F <= v < F + S {
                    assert(self.0@[v - F] == (before[v - F] || added(
                        ints,
                        vals.len() as int,
                        F + (v - F),
                    )));
                }
                if ints.contains(v) {
                    let a = choose|a: int| 0 <= a < ints.len() && ints[a] == v;
                    assert(added(ints, vals.len() as int, F + (v - F)));
                }
                if self@.contains(v) && !old(self)@.contains(v) {
                    assert(added(ints, vals.len() as int, F + (v - F)));
                    let a = choose|a: int| 0 <= a < vals.len() && ints[a] == F + (v - F);
                    assert(ints[a] == v);
                }
            }
        }
        Ok(())
    }

    /// The builder with the values between the two bounds added.
    pub fn add_range(self, start: Bound<usize>, end: Bound<usize>) -> (r: Result<
        Self,
        SchedulerError,
    >)
        requires
            self.wf(),
        ensures
            r matches Ok(t) ==> t.wf(),
            outcome(r) == spec_add_range(
                self@,
                Self::spec_first(),
                Self::spec_last(),
                start.first(Self::spec_first()),
                end.last(Self::spec_last()),
            ),
    {
        let mut builder = self;
        match builder.insert_range(start, end) {
            Ok(()) => Ok(builder),
            Err(e) => Err(e),
        }
    }

    /// The builder with `index` added.
    pub fn add(self, index: usize) -> (r: Result<Self, SchedulerError>)
        requires
            self.wf(),
        ensures
            r matches Ok(t) ==> t.wf(),
            outcome(r) == spec_add(self@, Self::spec_first(), Self::spec_last(), index as int),
    {
        let mut builder = self;
        match builder.insert(index) {
            Ok(()) => Ok(builder),
            Err(e) => Err(e),
        }
    }

    /// The builder with every value of `vals` added. One value outside the
    /// domain refuses them all.
    pub fn add_array(self, vals: &[usize]) -> (r: Result<Self, SchedulerError>)
        requires
            self.wf(),
        ensures
            r matches Ok(t) ==> t.wf(),
            outcome(r) == spec_add_array(
                self@,
                Self::spec_first(),
                Self::spec_last(),
                ints_of_words(vals@),
            ),
    {
        let mut builder = self;
        match builder.insert_array(vals) {
            Ok(()) => Ok(builder),
            Err(e) => Err(e),
        }
    }

    /// What has been selected, in ascending order.
    pub fn to_vec(&self) -> (r: Vec<usize>)
        requires
            self.wf(),
        ensures
            lists(ints_of_words(r@), self@),
    {
        let mut data: Vec<usize> = Vec::new();
        let mut index: usize = 0;
        while index < S
            invariant
                index <= S,
                self.wf(),
                is_ascending(ints_of_words(data@)),
                forall|i: int| 0 <= i < data.len() ==> F <= #[trigger] data@[i] < F + index,
                forall|i: int| 0 <= i < data.len() ==> self.0@[#[trigger] data@[i] - F],
                forall|j: int|
                    0 <= j < index && #[trigger] self.0@[j] ==> ints_of_words(data@).contains(
                        F + j,
                    ),
            decreases S - index,
        {
            if self.0[index] {
                let ghost before = ints_of_words(data@);
                data.push(index + F);
                proof {
                    let now = ints_of_words(data@);
                    assert forall|i: int| 0 <= i < before.len() implies now[i] == before[i] by {}
                    assert(now[data.len() - 1] == F + index);
                    assert forall|j: int| 0 <= j < index + 1 && #[trigger] self.0@[j] implies now.contains(
                        F + j,
                    ) by {
                        if j < index {
                            assert(before.contains(F + j));
                            let a = choose|a: int| 0 <= a < before.len() && before[a] == F + j;
                            assert(now[a] == F + j);
                        } else {
                            assert(now[data.len() - 1] == F + j);
                        }
                    }
                }
            }
            index = index + 1;
        }
        proof {
            let got = ints_of_words(data@);
            assert forall|i: int| 0 <= i < got.len() implies self@.contains(#[trigger] got[i]) by {
                assert(self.0@[data@[i] - F]);
            }
            assert forall|v: int| self@.contains(v) implies got.contains(v) by {
                assert(self.0@[v - F]);
            }
        }
        data
    }

    /// The field set of what has been selected. Refused with `EmptySet`
    /// where nothing has been, with `OutOfRange` where a selected value lies
    /// outside the domain of the field.
    pub fn finalize<T: Operator>(self) -> (r: Result<T, SchedulerError>)
        requires
            self.wf(),
        ensures
            r matches Ok(t) ==> t.wf(),
            outcome(r) == spec_finalize(self@, T::spec_min(), T::spec_max()),
    {
        proof {
            T::lemma_domain();
            lemma_mask_empty();
        }
        let mut mask: u64 = 0;
        let mut any: bool = false;
        let mut stray: bool = false;
        let mut index: usize = 0;
        while index < S
            invariant
                index <= S,
                self.wf(),
                T::spec_max() < 64,
                any <==> exists|v: int| self@.contains(v) && v < F + index,
                stray <==> exists|v: int| self@.contains(v) && v < F + index && v >= 64,
                forall|v: int|
                    mask_view(mask).contains(v) <==> self@.contains(v) && v < F + index && v < 64,
            decreases S - index,
        {
            if self.0[index] {
                assert(self@.contains(F + index));
                any = true;
                if index >= 64 || F >= 64 || index + F >= 64 {
                    stray = true;
                } else {
                    let v: usize = index + F;
                    mask = mask_insert(mask, v as u8);
                }
            }
            index = index + 1;
        }
        if !any {
            assert(!nonempty(self@));
            Err(SchedulerError::EmptySet)
        } else if stray {
            let ghost v = choose|v: int| self@.contains(v) && v < F + S && v >= 64;
            assert(self@.contains(v));
            assert(nonempty(self@));
            assert(!within(self@, T::spec_min(), T::spec_max()));
            Err(SchedulerError::OutOfRange)
        } else {
            assert(mask_view(mask) =~= self@);
            T::_from_val(mask)
        }
    }
}

impl CommonTimesBuilder<60, 0> {
    /// The builder that holds 0 alone: the start of the minute, or of the
    /// hour.
    pub fn default_zero() -> (r: Self)
        ensures
            r.wf(),
            r@ == set![0int],
    {
        let mut flags = Self::default().0;
        flags.set(0, true);
        let r = CommonTimesBuilder(flags);
        assert(r@ =~= set![0int]);
        r
    }
}

/// An empty selection cannot be finalized.
pub proof fn lemma_finalize_empty(lo: int, hi: int)
    ensures
        spec_finalize(Set::empty(), lo, hi) == Err::<Set<int>, SchedulerError>(
            SchedulerError::EmptySet,
        ),
{
}

/// Whatever is finalized has a member.
pub proof fn lemma_finalized_has_member(s: Set<int>, lo: int, hi: int)
    requires
        spec_finalize(s, lo, hi) is Ok,
    ensures
        spec_finalize(s, lo, hi) == Ok::<Set<int>, SchedulerError>(s),
        nonempty(s),
        within(s, lo, hi),
{
}

} // verus!
