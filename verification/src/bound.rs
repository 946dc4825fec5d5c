//! The two ends of a range of field values.

use vstd::prelude::*;

verus! {

/// One end of a range: a value that belongs to it, a value just outside it,
/// or no value, which stands for the end of the field's domain.
#[derive(Clone, Copy, Debug)]
pub enum Bound<T> {
    Included(T),
    Excluded(T),
    Unbounded,
}

impl Bound<u8> {
    /// The first value of a range that starts at this bound, in a domain that
    /// starts at `lo`.
    pub open spec fn first(self, lo: int) -> int {
        match self {
            Bound::Included(a) => a as int,
            Bound::Excluded(a) => a + 1,
            Bound::Unbounded => lo,
        }
    }

    /// The last value of a range that ends at this bound, in a domain that
    /// ends at `hi`.
    pub open spec fn last(self, hi: int) -> int {
        match self {
            Bound::Included(b) => b as int,
            Bound::Excluded(b) => b - 1,
            Bound::Unbounded => hi,
        }
    }
}

impl Bound<usize> {
    /// The first value of a range that starts at this bound, in a domain that
    /// starts at `lo`.
    pub open spec fn first(self, lo: int) -> int {
        match self {
            Bound::Included(a) => a as int,
            Bound::Excluded(a) => a + 1,
            Bound::Unbounded => lo,
        }
    }

    /// The last value of a range that ends at this bound, in a domain that
    /// ends at `hi`.
    pub open spec fn last(self, hi: int) -> int {
        match self {
            Bound::Included(b) => b as int,
            Bound::Excluded(b) => b - 1,
            Bound::Unbounded => hi,
        }
    }
}

/// The closed range between two bounds over bytes, or `None` where it holds
/// no value.
pub(crate) fn resolve_bytes(start: Bound<u8>, end: Bound<u8>, lo: u8, hi: u8) -> (r: Option<(u8, u8)>)
    ensures
        match r {
            Some((a, b)) => a == start.first(lo as int) && b == end.last(hi as int) && a <= b,
            None => start.first(lo as int) > end.last(hi as int),
        },
{
    let first: i32 = match start {
        Bound::Included(a) => a as i32,
        Bound::Excluded(a) => a as i32 + 1,
        Bound::Unbounded => lo as i32,
    };
    let last: i32 = match end {
        Bound::Included(b) => b as i32,
        Bound::Excluded(b) => b as i32 - 1,
        Bound::Unbounded => hi as i32,
    };
    if first > last {
        None
    } else {
        Some((first as u8, last as u8))
    }
}

/// The closed range between two bounds over machine words, or `None` where
/// it holds no value.
pub(crate) fn resolve_words(start: Bound<usize>, end: Bound<usize>, lo: usize, hi: usize) -> (r:
    Option<(usize, usize)>)
    ensures
        match r {
            Some((a, b)) => a == start.first(lo as int) && b == end.last(hi as int) && a <= b,
            None => start.first(lo as int) > end.last(hi as int),
        },
{
    let first: i128 = match start {
        Bound::Included(a) => a as i128,
        Bound::Excluded(a) => a as i128 + 1,
        Bound::Unbounded => lo as i128,
    };
    let last: i128 = match end {
        Bound::Included(b) => b as i128,
        Bound::Excluded(b) => b as i128 - 1,
        Bound::Unbounded => hi as i128,
    };
    if first > last {
        None
    } else {
        Some((first as usize, last as usize))
    }
}

} // verus!
