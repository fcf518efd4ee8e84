//! Rounding up to whole macroblocks.

use vstd::arithmetic::div_mod::{lemma_fundamental_div_mod, lemma_mod_multiples_basic};
use vstd::prelude::*;

verus! {

/// `a` divided by `b`, rounded up.
pub open spec fn ceil_div(a: nat, b: nat) -> nat {
    (a + b - 1) as nat / b
}

/// The least multiple of `b` that is not below `a`.
pub open spec fn round_up(a: nat, b: nat) -> nat {
    ceil_div(a, b) * b
}

/// `round_up(a, b)` is a multiple of `b`, is not below `a`, and is the least
/// such number.
pub proof fn lemma_round_up(a: nat, b: nat)
    requires
        b > 0,
    ensures
        round_up(a, b) % b == 0,
        a <= round_up(a, b) < a + b,
        a >= 1 ==> ceil_div(a, b) >= 1,
{
    let x: int = a + b - 1;
    lemma_fundamental_div_mod(x, b as int);
    lemma_mod_multiples_basic(x / (b as int), b as int);
    assert((b as int) * (x / (b as int)) == (x / (b as int)) * (b as int)) by (nonlinear_arith);
}

/// `a` divided by `b`, rounded up.
pub fn div_ceil(a: u32, b: u32) -> (q: u32)
    requires
        b > 0,
        a + b <= u32::MAX,
    ensures
        q == ceil_div(a as nat, b as nat),
{
    (a + b - 1) / b
}

/// The least multiple of `b` that is not below `a`, for any `a`.
pub(crate) fn next_multiple_wide(a: u32, b: u32) -> (m: u64)
    requires
        b > 0,
    ensures
        m == round_up(a as nat, b as nat),
        m < a + b,
{
    proof {
        lemma_round_up(a as nat, b as nat);
    }
    let q: u64 = (a as u64 + b as u64 - 1) / (b as u64);
    q * (b as u64)
}

/// The least multiple of `b` that is not below `a`.
pub fn next_multiple(a: u32, b: u32) -> (m: u32)
    requires
        b > 0,
        round_up(a as nat, b as nat) <= u32::MAX,
    ensures
        m == round_up(a as nat, b as nat),
{
    next_multiple_wide(a, b) as u32
}

} // verus!
