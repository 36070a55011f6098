//! How large sizes are taken before they are written.
use crate::model::fs::format::{EXACT_LIMIT, as_double, nearest, spacing};
use vstd::prelude::*;

verus! {

/// Sizes from two to the power of 53 on are taken at the nearest of the
/// numbers that a double can hold: these lie a power of two apart, and the
/// size is at most half of that away.
pub proof fn large_sizes_are_taken_nearby(n: nat)
    requires
        9_007_199_254_740_992 <= n <= u64::MAX,
    ensures
        spacing(n) * 4_503_599_627_370_496 <= n < spacing(n) * 9_007_199_254_740_992,
        -spacing(n) <= 2 * (as_double(n) - n) <= spacing(n),
        as_double(n) % (spacing(n) as int) == 0,
{
    spacing_is_about(n);
    let d = spacing(n) as int;
    let (q, r) = (n as int / d, n as int % d);
    vstd::arithmetic::div_mod::lemma_fundamental_div_mod(n as int, d);
    assert(d * q == q * d) by (nonlinear_arith);
    assert((q + 1) * d == q * d + d) by (nonlinear_arith);
    let m = nearest(n as int, d);
    assert((m * d) % d == 0) by {
        vstd::arithmetic::div_mod::lemma_mod_multiples_basic(m, d);
    }
}

proof fn spacing_is_about(n: nat)
    ensures
        spacing(n) >= 1,
        n < spacing(n) * 9_007_199_254_740_992,
        n >= 9_007_199_254_740_992 ==> spacing(n) * 4_503_599_627_370_496 <= n,
    decreases n,
{
    if n >= EXACT_LIMIT {
        spacing_is_about(n / 2);
    }
}

} // verus!
