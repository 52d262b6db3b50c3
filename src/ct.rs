use subtle::{Choice, ConditionallySelectable, ConstantTimeEq};
use vstd::prelude::*;

verus! {

/// Relies on subtle's `Choice::from(u8)` and `u64::conditional_assign`:
/// `dest` keeps its value when `bit` is 0 and takes `src` when `bit` is 1,
/// through a mask rather than a branch.
#[verifier::external_body]
pub(crate) fn ct_assign_u64(dest: &mut u64, src: u64, bit: u8)
    requires
        bit <= 1,
    ensures
        *final(dest) == if bit == 1 { src } else { *old(dest) },
{
    dest.conditional_assign(&src, Choice::from(bit))
}

/// Relies on subtle's `u64::ct_eq`: the choice is 1 exactly when the two
/// words are equal.
#[verifier::external_body]
pub(crate) fn ct_eq_u64(a: u64, b: u64) -> (r: bool)
    ensures
        r == (a == b),
{
    bool::from(a.ct_eq(&b))
}

} // verus!
