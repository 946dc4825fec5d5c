//! The mathematical model of a field set: a set of integers inside a closed
//! domain, with its least member, the next member after a value, and its
//! members in ascending order.

use vstd::prelude::*;
use crate::error::SchedulerError;

verus! {

/// The closed range `lo..=hi`; empty where `lo > hi`.
pub open spec fn span(lo: int, hi: int) -> Set<int> {
    Set::new(|v: int| lo <= v <= hi)
}

/// Whether `s` has a member.
pub open spec fn nonempty(s: Set<int>) -> bool {
    exists|v: int| s.contains(v)
}

/// Whether every member of `s` lies in `lo..=hi`.
pub open spec fn within(s: Set<int>, lo: int, hi: int) -> bool {
    forall|v: int| s.contains(v) ==> lo <= v <= hi
}

/// What holds of every finalized field set: it has a member, and all its
/// members lie in the field's domain.
pub open spec fn valid_members(s: Set<int>, lo: int, hi: int) -> bool {
    nonempty(s) && within(s, lo, hi)
}

/// Whether `m` is the least member of `s`.
pub open spec fn is_minimum(s: Set<int>, m: int) -> bool {
    s.contains(m) && forall|v: int| s.contains(v) ==> m <= v
}

/// The least member of `s`, where it has one.
pub open spec fn minimum(s: Set<int>) -> int {
    choose|m: int| is_minimum(s, m)
}

/// The members of `s` that are greater than `v`.
pub open spec fn after(s: Set<int>, v: int) -> Set<int> {
    Set::new(|x: int| s.contains(x) && x > v)
}

/// The least member of `s` greater than `v`, or `None` where `s` has no
/// member greater than `v`.
pub open spec fn next_after(s: Set<int>, v: int) -> Option<int> {
    if nonempty(after(s, v)) {
        Some(minimum(after(s, v)))
    } else {
        None
    }
}

/// Strictly ascending.
pub open spec fn is_ascending(r: Seq<int>) -> bool {
    forall|i: int, j: int| 0 <= i < j < r.len() ==> r[i] < r[j]
}

/// Whether `r` holds the members of `s`, each once, in ascending order.
pub open spec fn lists(r: Seq<int>, s: Set<int>) -> bool {
    &&& is_ascending(r)
    &&& forall|i: int| 0 <= i < r.len() ==> s.contains(#[trigger] r[i])
    &&& forall|v: int| s.contains(v) ==> r.contains(v)
}

/// The values of a sequence of bytes.
pub open spec fn ints_of(r: Seq<u8>) -> Seq<int> {
    Seq::new(r.len(), |i: int| r[i] as int)
}

/// The values of a sequence of machine words.
pub open spec fn ints_of_words(r: Seq<usize>) -> Seq<int> {
    Seq::new(r.len(), |i: int| r[i] as int)
}

/// Adding one value to a set over the domain `lo..=hi`.
pub open spec fn spec_add(s: Set<int>, lo: int, hi: int, v: int) -> Result<Set<int>, SchedulerError> {
    if lo <= v <= hi {
        Ok(s.insert(v))
    } else {
        Err(SchedulerError::OutOfRange)
    }
}

/// Adding the closed range `first..=last`. A range that holds no value is
/// refused before its ends are looked at.
pub open spec fn spec_add_range(s: Set<int>, lo: int, hi: int, first: int, last: int) -> Result<
    Set<int>,
    SchedulerError,
> {
    if first > last {
        Err(SchedulerError::InvalidRange)
    } else if first < lo || last > hi {
        Err(SchedulerError::OutOfRange)
    } else {
        Ok(s.union(span(first, last)))
    }
}

/// Adding every value of `vals`; one value outside the domain refuses them all.
pub open spec fn spec_add_array(s: Set<int>, lo: int, hi: int, vals: Seq<int>) -> Result<
    Set<int>,
    SchedulerError,
> {
    if forall|i: int| 0 <= i < vals.len() ==> lo <= #[trigger] vals[i] <= hi {
        Ok(s.union(vals.to_set()))
    } else {
        Err(SchedulerError::OutOfRange)
    }
}

/// Finalizing what a builder has gathered: an empty selection is refused,
/// and so is one with a member outside the domain.
pub open spec fn spec_finalize(s: Set<int>, lo: int, hi: int) -> Result<Set<int>, SchedulerError> {
    if !nonempty(s) {
        Err(SchedulerError::EmptySet)
    } else if !within(s, lo, hi) {
        Err(SchedulerError::OutOfRange)
    } else {
        Ok(s)
    }
}

/// A set has at most one least member.
pub proof fn lemma_minimum_is(s: Set<int>, m: int)
    requires
        is_minimum(s, m),
    ensures
        minimum(s) == m,
{
    let c = minimum(s);
    assert(is_minimum(s, c));
}

proof fn lemma_minimum_from(s: Set<int>, lo: int, k: int) -> (m: int)
    requires
        forall|v: int| s.contains(v) ==> lo <= v,
        s.contains(k),
    ensures
        is_minimum(s, m),
    decreases k - lo,
{
    if forall|v: int| s.contains(v) ==> k <= v {
        k
    } else {
        let v = choose|v: int| s.contains(v) && v < k;
        lemma_minimum_from(s, lo, v)
    }
}

/// A set with a member and a lower bound has a least member.
pub proof fn lemma_minimum_exists(s: Set<int>, lo: int)
    requires
        nonempty(s),
        forall|v: int| s.contains(v) ==> lo <= v,
    ensures
        is_minimum(s, minimum(s)),
{
    let k = choose|v: int| s.contains(v);
    let m = lemma_minimum_from(s, lo, k);
    lemma_minimum_is(s, m);
}

/// Where there is a member after `v`, `next_after` is the least of them.
pub proof fn lemma_next_after_some(s: Set<int>, v: int)
    requires
        nonempty(after(s, v)),
    ensures
        next_after(s, v) matches Some(n) && s.contains(n) && n > v && forall|x: int|
            s.contains(x) && x > v ==> n <= x,
{
    lemma_minimum_exists(after(s, v), v);
    let n = minimum(after(s, v));
    assert(after(s, v).contains(n));
    assert forall|x: int| s.contains(x) && x > v implies n <= x by {
        assert(after(s, v).contains(x));
    }
}

/// Where `n` is a member after `v` and no member lies between, `n` is what
/// `next_after` gives.
pub proof fn lemma_next_after_is(s: Set<int>, v: int, n: int)
    requires
        s.contains(n),
        n > v,
        forall|x: int| s.contains(x) && x > v ==> n <= x,
    ensures
        next_after(s, v) == Some(n),
{
    assert(after(s, v).contains(n));
    lemma_minimum_is(after(s, v), n);
}

/// Where no member is greater than `v`, `next_after` gives `None`.
pub proof fn lemma_next_after_none(s: Set<int>, v: int)
    requires
        forall|x: int| s.contains(x) ==> x <= v,
    ensures
        next_after(s, v) is None,
{
    if nonempty(after(s, v)) {
        let x = choose|x: int| after(s, v).contains(x);
        assert(s.contains(x));
    }
}

/// A value of the domain that was added is a member, and adding it once
/// more changes nothing.
pub proof fn lemma_add_then_contains(s: Set<int>, lo: int, hi: int, v: int)
    requires
        lo <= v <= hi,
    ensures
        spec_add(s, lo, hi, v) matches Ok(t) && t.contains(v) && spec_add(t, lo, hi, v) == Ok::<
            Set<int>,
            SchedulerError,
        >(t),
{
    let t = s.insert(v);
    assert(t.insert(v) =~= t);
}

/// Adding keeps a set valid: what comes out of a successful `add`,
/// `add_range` or `add_array` on any set inside the domain has a member and
/// stays inside the domain.
pub proof fn lemma_add_keeps_valid(s: Set<int>, lo: int, hi: int, v: int)
    requires
        within(s, lo, hi),
        spec_add(s, lo, hi, v) is Ok,
    ensures
        valid_members(spec_add(s, lo, hi, v).unwrap(), lo, hi),
{
    assert(s.insert(v).contains(v));
}

/// Adding the values of `vals` one after the other, from the first on: the
/// first value outside the domain ends it.
pub open spec fn spec_add_each(s: Set<int>, lo: int, hi: int, vals: Seq<int>) -> Result<
    Set<int>,
    SchedulerError,
>
    decreases vals.len(),
{
    if vals.len() == 0 {
        Ok(s)
    } else {
        match spec_add(s, lo, hi, vals[0]) {
            Ok(t) => spec_add_each(t, lo, hi, vals.drop_first()),
            Err(e) => Err(e),
        }
    }
}

/// Adding an array is adding its values one after the other.
pub proof fn lemma_add_array_is_repeated_add(s: Set<int>, lo: int, hi: int, vals: Seq<int>)
    ensures
        spec_add_array(s, lo, hi, vals) == spec_add_each(s, lo, hi, vals),
    decreases vals.len(),
{
    if vals.len() == 0 {
        assert(s.union(vals.to_set()) =~= s);
    } else {
        let rest = vals.drop_first();
        assert forall|i: int| 0 <= i < rest.len() implies rest[i] == vals[i + 1] by {}
        if lo <= vals[0] <= hi {
            let t = s.insert(vals[0]);
            lemma_add_array_is_repeated_add(t, lo, hi, rest);
            if forall|i: int| 0 <= i < vals.len() ==> lo <= #[trigger] vals[i] <= hi {
                assert forall|i: int| 0 <= i < rest.len() implies lo <= #[trigger] rest[i]
                    <= hi by {
                    assert(lo <= vals[i + 1] <= hi);
                }
                assert(t.union(rest.to_set()) =~= s.union(vals.to_set())) by {
                    assert forall|x: int| t.union(rest.to_set()).contains(x) == s.union(
                        vals.to_set(),
                    ).contains(x) by {
                        if rest.contains(x) {
                            let i = choose|i: int| 0 <= i < rest.len() && rest[i] == x;
                            assert(vals[i + 1] == x);
                        }
                        if vals.contains(x) {
                            let i = choose|i: int| 0 <= i < vals.len() && vals[i] == x;
                            if i > 0 {
                                assert(rest[i - 1] == x);
                            }
                        }
                        if x == vals[0] {
                            assert(vals.contains(x));
                        }
                    }
                }
            } else {
                let i = choose|i: int| 0 <= i < vals.len() && !(lo <= #[trigger] vals[i] <= hi);
                assert(i > 0);
                assert(!(lo <= rest[i - 1] <= hi));
            }
        } else {
            assert(!(lo <= vals[0] <= hi));
        }
    }
}

/// The members in ascending order hold no value twice, and none outside the
/// domain.
pub proof fn lemma_listing_is_strict(r: Seq<int>, s: Set<int>, lo: int, hi: int)
    requires
        lists(r, s),
        within(s, lo, hi),
    ensures
        r.no_duplicates(),
        forall|i: int| 0 <= i < r.len() ==> lo <= #[trigger] r[i] <= hi,
{
    assert forall|i: int, j: int| 0 <= i < r.len() && 0 <= j < r.len() && i != j implies r[i]
        != r[j] by {
        if i < j {
            assert(r[i] < r[j]);
        } else {
            assert(r[j] < r[i]);
        }
    }
}

/// A range that holds no value is refused as invalid, wherever its ends lie.
pub proof fn lemma_empty_range_is_invalid(s: Set<int>, lo: int, hi: int, first: int, last: int)
    requires
        first > last,
    ensures
        spec_add_range(s, lo, hi, first, last) == Err::<Set<int>, SchedulerError>(
            SchedulerError::InvalidRange,
        ),
{
}

/// The least member of a whole domain is its first value.
pub proof fn lemma_minimum_of_span(lo: int, hi: int)
    requires
        lo <= hi,
    ensures
        minimum(span(lo, hi)) == lo,
{
    lemma_minimum_is(span(lo, hi), lo);
}

/// The members of a whole domain in ascending order are `lo, lo + 1, ..., hi`.
pub proof fn lemma_listing_of_span(r: Seq<int>, lo: int, hi: int)
    requires
        lists(r, span(lo, hi)),
        lo <= hi + 1,
    ensures
        r == Seq::new((hi - lo + 1) as nat, |i: int| lo + i),
    decreases hi - lo + 1,
{
    let want = Seq::new((hi - lo + 1) as nat, |i: int| lo + i);
    if lo > hi {
        if r.len() > 0 {
            assert(span(lo, hi).contains(r[0]));
        }
        assert(r =~= want);
    } else {
        assert(span(lo, hi).contains(lo));
        let j = choose|j: int| 0 <= j < r.len() && r[j] == lo;
        if j > 0 {
            assert(span(lo, hi).contains(r[0]));
            assert(r[0] < r[j]);
        }
        let rest = r.subrange(1, r.len() as int);
        assert forall|i: int| 0 <= i < rest.len() implies span(lo + 1, hi).contains(
            #[trigger] rest[i],
        ) by {
            assert(rest[i] == r[i + 1]);
            assert(span(lo, hi).contains(r[i + 1]));
            assert(r[0] < r[i + 1]);
        }
        assert forall|v: int| span(lo + 1, hi).contains(v) implies rest.contains(v) by {
            assert(span(lo, hi).contains(v));
            let k = choose|k: int| 0 <= k < r.len() && r[k] == v;
            assert(rest[k - 1] == v);
        }
        assert(is_ascending(rest)) by {
            assert forall|a: int, b: int| 0 <= a < b < rest.len() implies rest[a] < rest[b] by {
                assert(r[a + 1] < r[b + 1]);
            }
        }
        lemma_listing_of_span(rest, lo + 1, hi);
        assert(r =~= want) by {
            assert(r.len() == want.len());
            assert forall|i: int| 0 <= i < r.len() implies r[i] == want[i] by {
                if i > 0 {
                    assert(rest[i - 1] == r[i]);
                }
            }
        }
    }
}

} // verus!
