//! Sets of small integers held in the bits of a `u64`: bit `v` is set exactly
//! when `v` is a member.

use vstd::prelude::*;

verus! {

/// Whether bit `v` of `mask` is set. No value outside `0..64` is ever a member.
pub open spec fn bit_is_set(mask: u64, v: int) -> bool {
    0 <= v < 64 && (mask & (1u64 << (v as u64))) != 0
}

/// The set of values that `mask` holds.
pub open spec fn mask_view(mask: u64) -> Set<int> {
    Set::new(|v: int| bit_is_set(mask, v))
}

proof fn lemma_bit_of_zero(w: u64)
    by (bit_vector)
    requires
        w < 64,
    ensures
        (0u64 & (1u64 << w)) == 0,
{
}

proof fn lemma_bit_after_or(mask: u64, v: u64, w: u64)
    by (bit_vector)
    requires
        v < 64,
        w < 64,
    ensures
        ((mask | (1u64 << v)) & (1u64 << w)) != 0 <==> ((mask & (1u64 << w)) != 0 || v == w),
{
}

/// The mask with no bit set holds nothing.
pub proof fn lemma_mask_empty()
    ensures
        mask_view(0) == Set::<int>::empty(),
{
    assert forall|w: int| !mask_view(0).contains(w) by {
        if 0 <= w < 64 {
            lemma_bit_of_zero(w as u64);
        }
    }
}

/// Setting bit `v` adds `v` and nothing else.
pub proof fn lemma_mask_insert(mask: u64, v: int)
    requires
        0 <= v < 64,
    ensures
        mask_view(mask | (1u64 << (v as u64))) == mask_view(mask).insert(v),
{
    let after = mask | (1u64 << (v as u64));
    assert forall|w: int| mask_view(after).contains(w) == mask_view(mask).insert(v).contains(w) by {
        if 0 <= w < 64 {
            lemma_bit_after_or(mask, v as u64, w as u64);
        }
    }
}

/// Membership test; a value of 64 or more is never a member.
pub(crate) fn mask_contains(mask: u64, v: u8) -> (r: bool)
    ensures
        r == mask_view(mask).contains(v as int),
{
    v < 64 && (mask & (1u64 << (v as u64))) != 0
}

/// The mask with `v` added.
pub(crate) fn mask_insert(mask: u64, v: u8) -> (r: u64)
    requires
        v < 64,
    ensures
        mask_view(r) == mask_view(mask).insert(v as int),
{
    proof {
        lemma_mask_insert(mask, v as int);
    }
    mask | (1u64 << (v as u64))
}

} // verus!
