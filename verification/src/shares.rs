//! Basis-point share arithmetic.
//!
//! A share is a number of basis points (parts per 10,000); a share
//! vector is valid when its entries sum to exactly `BPS_DENOM`. A
//! recipient's part of an amount is the floor of `amount * bps / 10000`;
//! the lemmas here bound one part and the sum of all parts, which is
//! what conservation of a split rests on.

use vstd::prelude::*;
use vstd::arithmetic::div_mod::{lemma_fundamental_div_mod, lemma_mod_bound, lemma_div_pos_is_pos};
use vstd::arithmetic::mul::{lemma_mul_inequality, lemma_mul_is_distributive_add, lemma_mul_nonnegative};

verus! {

/// Shares are expressed in basis points: parts per this denominator.
pub const BPS_DENOM: u32 = 10_000;

/// The part of `amount` that a share of `bps` basis points buys:
/// `floor(amount * bps / 10000)`.
pub open spec fn floor_share(amount: int, bps: int) -> int {
    (amount * bps) / (BPS_DENOM as int)
}

/// The sum of a share vector, in basis points.
pub open spec fn sum_bps(s: Seq<u32>) -> int
    decreases s.len(),
{
    if s.len() == 0 {
        0
    } else {
        sum_bps(s.drop_last()) + s.last()
    }
}

/// The sum of the floor parts that the shares in `s` take of `amount`.
pub open spec fn parts_sum(amount: int, s: Seq<u32>) -> int
    decreases s.len(),
{
    if s.len() == 0 {
        0
    } else {
        parts_sum(amount, s.drop_last()) + floor_share(amount, s.last() as int)
    }
}

pub proof fn lemma_sum_bps_take_step(s: Seq<u32>, i: int)
    requires
        0 <= i < s.len(),
    ensures
        sum_bps(s.take(i + 1)) == sum_bps(s.take(i)) + s[i],
        parts_sum_take_unfold(s, i),
{
    assert(s.take(i + 1).drop_last() =~= s.take(i));
    assert(s.take(i + 1).last() == s[i]);
}

/// Helper conjunct of `lemma_sum_bps_take_step`: taking one more share
/// adds that share's floor part to the parts sum, for every amount.
pub open spec fn parts_sum_take_unfold(s: Seq<u32>, i: int) -> bool {
    forall|amount: int|
        #[trigger] parts_sum(amount, s.take(i + 1)) == parts_sum(amount, s.take(i))
            + floor_share(amount, s[i] as int)
}

pub proof fn lemma_sum_bps_nonneg(s: Seq<u32>)
    ensures
        sum_bps(s) >= 0,
    decreases s.len(),
{
    if s.len() > 0 {
        lemma_sum_bps_nonneg(s.drop_last());
    }
}

pub proof fn lemma_sum_bps_take_le(s: Seq<u32>, i: int)
    requires
        0 <= i <= s.len(),
    ensures
        sum_bps(s.take(i)) <= sum_bps(s),
    decreases s.len(),
{
    if i == s.len() {
        assert(s.take(i) =~= s);
    } else {
        assert(s.drop_last().take(i) =~= s.take(i));
        lemma_sum_bps_take_le(s.drop_last(), i);
    }
}

/// Each entry of a share vector is at most the vector's sum.
pub proof fn lemma_element_le_sum(s: Seq<u32>, i: int)
    requires
        0 <= i < s.len(),
    ensures
        s[i] <= sum_bps(s),
{
    lemma_sum_bps_take_step(s, i);
    lemma_sum_bps_take_le(s, i + 1);
    lemma_sum_bps_nonneg(s.take(i));
}

/// A floor part is non-negative, and scaling it back up by the
/// denominator stays below `amount * bps`.
pub proof fn lemma_floor_share_scaled(amount: int, bps: int)
    requires
        amount >= 0,
        bps >= 0,
    ensures
        0 <= floor_share(amount, bps),
        (BPS_DENOM as int) * floor_share(amount, bps) <= amount * bps,
{
    let d = BPS_DENOM as int;
    let p = amount * bps;
    lemma_mul_nonnegative(amount, bps);
    lemma_div_pos_is_pos(p, d);
    lemma_fundamental_div_mod(p, d);
    lemma_mod_bound(p, d);
}

/// A floor part of a share of at most the whole denominator is between
/// 0 and the whole amount.
pub proof fn lemma_floor_share_bounds(amount: int, bps: int)
    requires
        amount >= 0,
        0 <= bps <= BPS_DENOM,
    ensures
        0 <= floor_share(amount, bps) <= amount,
        (BPS_DENOM as int) * floor_share(amount, bps) <= amount * bps,
{
    let d = BPS_DENOM as int;
    lemma_floor_share_scaled(amount, bps);
    lemma_mul_inequality(bps, d, amount);
    assert(bps * amount <= d * amount);
    assert(amount * bps == bps * amount) by (nonlinear_arith);
    assert(d * amount == amount * d) by (nonlinear_arith);
    assert(d * floor_share(amount, bps) <= amount * d);
}

/// The parts sum, scaled back up by the denominator, stays below the
/// amount times the share sum; in particular a valid share vector's
/// parts never add up to more than the amount.
pub proof fn lemma_parts_sum_le(amount: int, s: Seq<u32>)
    requires
        amount >= 0,
    ensures
        parts_sum(amount, s) >= 0,
        (BPS_DENOM as int) * parts_sum(amount, s) <= amount * sum_bps(s),
    decreases s.len(),
{
    let d = BPS_DENOM as int;
    if s.len() == 0 {
    } else {
        let dl = s.drop_last();
        let b = s.last() as int;
        lemma_parts_sum_le(amount, dl);
        lemma_floor_share_scaled(amount, b);
        lemma_mul_is_distributive_add(d, parts_sum(amount, dl), floor_share(amount, b));
        lemma_mul_is_distributive_add(amount, sum_bps(dl), b);
    }
}

/// For a valid share vector, the parts of any prefix sum to at most the
/// amount.
pub proof fn lemma_prefix_parts_le_amount(amount: int, s: Seq<u32>, i: int)
    requires
        amount >= 0,
        sum_bps(s) == BPS_DENOM,
        0 <= i <= s.len(),
    ensures
        0 <= parts_sum(amount, s.take(i)) <= amount,
{
    let d = BPS_DENOM as int;
    let t = s.take(i);
    lemma_parts_sum_le(amount, t);
    lemma_sum_bps_take_le(s, i);
    lemma_sum_bps_nonneg(t);
    lemma_mul_inequality(sum_bps(t), d, amount);
    assert(amount * sum_bps(t) == sum_bps(t) * amount) by (nonlinear_arith);
    assert(amount * d == d * amount) by (nonlinear_arith);
    assert(d * parts_sum(amount, t) <= d * amount);
}

} // verus!
