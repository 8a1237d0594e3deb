//! Unlock arithmetic of the airdrop ledger.
use vstd::prelude::*;

verus! {

/// Number of quarter steps in which an allocation unlocks.
pub const TIER_DENOMINATOR: u128 = 4;

/// Relies on cosmwasm_std::Uint128::multiply_ratio: `value * numerator /
/// denominator`, floored, with the product held in 256 bits; it panics on a
/// zero denominator and on a quotient above `u128::MAX`.
#[verifier::external_body]
pub(crate) fn multiply_ratio(value: u128, numerator: u128, denominator: u128) -> (r: u128)
    requires
        denominator > 0,
        (value as int) * (numerator as int) / (denominator as int) <= u128::MAX,
    ensures
        r == (value as int) * (numerator as int) / (denominator as int),
{
    cosmwasm_std::Uint128::new(value).multiply_ratio(numerator, denominator).u128()
}

/// The amount unlocked by `tier_count` of the four tiers.
pub open spec fn unlocked_spec(allocated: u128, tier_count: u128) -> int {
    (allocated as int) * (tier_count as int) / 4
}

/// `floor(allocated * tier_count / 4)`, exact for every `u128` allocation.
pub fn unlocked_amount(allocated: u128, tier_count: u128) -> (r: u128)
    requires
        1 <= tier_count <= 4,
    ensures
        r == unlocked_spec(allocated, tier_count),
        r <= allocated,
{
    proof {
        lemma_unlocked_bounded(allocated, tier_count);
    }
    multiply_ratio(allocated, tier_count, TIER_DENOMINATOR)
}

/// An unlock never exceeds the allocation and grows with the tier count.
pub proof fn lemma_unlocked_bounded(allocated: u128, tier_count: u128)
    requires
        tier_count <= 4,
    ensures
        unlocked_spec(allocated, tier_count) <= allocated,
        0 <= unlocked_spec(allocated, tier_count),
        tier_count == 4 ==> unlocked_spec(allocated, tier_count) == allocated,
{
    let a = allocated as int;
    let t = tier_count as int;
    assert(a * t <= a * 4) by (nonlinear_arith)
        requires 0 <= a, 0 <= t <= 4;
    assert(a * t / 4 <= a * 4 / 4) by (nonlinear_arith)
        requires a * t <= a * 4, 0 <= a * t;
    assert(a * 4 / 4 == a) by (nonlinear_arith);
    assert(0 <= a * t / 4) by (nonlinear_arith)
        requires 0 <= a, 0 <= t;
}

/// More tiers never unlock less.
pub proof fn lemma_unlocked_monotonic(allocated: u128, t1: u128, t2: u128)
    requires
        t1 <= t2,
    ensures
        unlocked_spec(allocated, t1) <= unlocked_spec(allocated, t2),
{
    let a = allocated as int;
    assert(a * t1 <= a * t2) by (nonlinear_arith)
        requires 0 <= a, t1 <= t2;
    assert(a * t1 / 4 <= a * t2 / 4) by (nonlinear_arith)
        requires a * t1 <= a * t2, 0 <= a * t1;
}

} // verus!
