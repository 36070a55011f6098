//! Hashing of the numbers behind identifiers.
use vstd::prelude::*;

verus! {

/// `u64::hash` feeds the number to the hasher; what the hasher makes of it
/// is not stated.
pub assume_specification<H: std::hash::Hasher>[ <u64 as std::hash::Hash>::hash::<H> ](
    n: &u64,
    state: &mut H,
)
;

} // verus!
