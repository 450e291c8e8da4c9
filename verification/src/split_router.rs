//! The settlement engine: an N-way proportional payment split.
//!
//! `SplitRouter::split` divides a positive amount among recipients by
//! basis-point shares. Every recipient but the last gets the floor of
//! its proportional part; the last absorbs the rounding remainder, so
//! the parts always add up to the amount exactly. Zero-valued parts
//! produce no transfer.

use vstd::prelude::*;
use crate::ledger::{Principal, Transfer, grants};
use crate::shares::{
    BPS_DENOM, floor_share, sum_bps, parts_sum, lemma_sum_bps_take_step, lemma_sum_bps_take_le,
    lemma_element_le_sum, lemma_floor_share_bounds, lemma_prefix_parts_le_amount,
    lemma_parts_sum_le,
};
use vstd::arithmetic::mul::lemma_mul_inequality;

verus! {

/// The event a successful split publishes, with the payer and the
/// total amount as payload.
#[derive(Clone, Copy, Debug, PartialEq, Eq, Structural)]
pub enum Event {
    SplitExecuted,
}

/// Why a split is refused; one variant per fail-fast precondition, in
/// the order the preconditions are checked.
#[derive(Clone, Copy, Debug, PartialEq, Eq, Structural)]
pub enum SplitError {
    /// The amount to split was zero or negative.
    NonPositiveAmount,
    /// The recipient list was empty.
    NoRecipients,
    /// The recipient and share lists differ in length.
    LengthMismatch,
    /// The shares do not sum to exactly `BPS_DENOM` basis points, or
    /// overflow while being summed.
    InvalidShares,
    /// The payer has not authorized the call.
    Unauthorized,
}

/// What a successful split asks the ledger runtime to do: the
/// transfers to perform and the event to publish.
#[derive(Debug)]
pub struct SplitOutcome {
    pub transfers: Vec<Transfer>,
    pub event: Event,
    pub payer: Principal,
    pub total: i128,
}

/// The stateless settlement component.
pub struct SplitRouter;

/// The amount recipient `i` finally receives: its floor part, except
/// that the last recipient absorbs the rounding remainder.
pub open spec fn payout(amount: int, shares: Seq<u32>, i: int) -> int {
    if i == shares.len() - 1 {
        amount - parts_sum(amount, shares.take(shares.len() - 1))
    } else {
        floor_share(amount, shares[i] as int)
    }
}

/// The sum of the first `n` payouts.
pub open spec fn payouts_total(amount: int, shares: Seq<u32>, n: int) -> int
    decreases n,
{
    if n <= 0 {
        0
    } else {
        payouts_total(amount, shares, n - 1) + payout(amount, shares, n - 1)
    }
}

/// The transfers a split performs for its first `n` recipients, in
/// order, with zero payouts skipped.
pub open spec fn transfers_upto(
    token: Principal,
    payer: Principal,
    recipients: Seq<Principal>,
    shares: Seq<u32>,
    amount: int,
    n: int,
) -> Seq<Transfer>
    decreases n,
{
    if n <= 0 {
        Seq::empty()
    } else {
        let prev = transfers_upto(token, payer, recipients, shares, amount, n - 1);
        let p = payout(amount, shares, n - 1);
        if p > 0 {
            prev.push(
                Transfer { token, from: payer, to: recipients[n - 1], amount: p as i128 },
            )
        } else {
            prev
        }
    }
}

/// The sum of the amounts of a sequence of transfers.
pub open spec fn transfers_total(s: Seq<Transfer>) -> int
    decreases s.len(),
{
    if s.len() == 0 {
        0
    } else {
        transfers_total(s.drop_last()) + s.last().amount
    }
}

/// The fail-fast validation of a split request, in checking order.
pub open spec fn split_check(
    payer: Principal,
    recipients: Seq<Principal>,
    shares: Seq<u32>,
    amount: int,
    authorized: Seq<Principal>,
) -> Result<(), SplitError> {
    if amount <= 0 {
        Err(SplitError::NonPositiveAmount)
    } else if recipients.len() == 0 {
        Err(SplitError::NoRecipients)
    } else if recipients.len() != shares.len() {
        Err(SplitError::LengthMismatch)
    } else if sum_bps(shares) != BPS_DENOM as int {
        Err(SplitError::InvalidShares)
    } else if !authorized.contains(payer) {
        Err(SplitError::Unauthorized)
    } else {
        Ok(())
    }
}

/// For `n` short of the last recipient, the payouts so far are exactly
/// the floor parts of the first `n` shares.
proof fn lemma_payouts_prefix(amount: int, shares: Seq<u32>, n: int)
    requires
        0 <= n <= shares.len() - 1,
    ensures
        payouts_total(amount, shares, n) == parts_sum(amount, shares.take(n)),
    decreases n,
{
    if n == 0 {
        assert(shares.take(0) =~= Seq::<u32>::empty());
    } else {
        lemma_payouts_prefix(amount, shares, n - 1);
        lemma_sum_bps_take_step(shares, n - 1);
    }
}

/// Split conservation: for every positive amount and share vector
/// summing to exactly `BPS_DENOM`, the payouts sum to the amount
/// exactly; every recipient but the last gets precisely the floor of
/// its proportional part, every payout is non-negative, and the last
/// recipient gets at least its own floor part (it absorbs the
/// remainder, never loses to it).
pub proof fn lemma_split_conservation(amount: int, shares: Seq<u32>)
    requires
        amount > 0,
        shares.len() >= 1,
        sum_bps(shares) == BPS_DENOM as int,
    ensures
        payouts_total(amount, shares, shares.len() as int) == amount,
        forall|i: int|
            0 <= i < shares.len() - 1 ==> #[trigger] payout(amount, shares, i) == floor_share(
                amount,
                shares[i] as int,
            ),
        forall|i: int|
            0 <= i < shares.len() ==> 0 <= #[trigger] payout(amount, shares, i) <= amount,
        payout(amount, shares, shares.len() - 1) >= floor_share(amount, shares.last() as int),
{
    let n = shares.len() as int;
    lemma_payouts_prefix(amount, shares, n - 1);
    lemma_prefix_parts_le_amount(amount, shares, n - 1);
    assert(payouts_total(amount, shares, n) == amount);
    assert forall|i: int| 0 <= i < n implies 0 <= #[trigger] payout(amount, shares, i) <= amount by {
        if i < n - 1 {
            lemma_element_le_sum(shares, i);
            lemma_floor_share_bounds(amount, shares[i] as int);
        } else {
            lemma_prefix_parts_le_amount(amount, shares, n - 1);
        }
    }
    // the last payout is the amount minus the other floor parts, which
    // together with its own floor part still fit under the amount
    lemma_sum_bps_take_step(shares, n - 1);
    assert(shares.take(n - 1 + 1) =~= shares);
    assert(parts_sum(amount, shares.take(n - 1 + 1)) == parts_sum(amount, shares.take(n - 1))
        + floor_share(amount, shares[n - 1] as int));
    lemma_parts_sum_le(amount, shares);
    assert((BPS_DENOM as int) * parts_sum(amount, shares) <= amount * (BPS_DENOM as int));
    assert(amount * (BPS_DENOM as int) == (BPS_DENOM as int) * amount) by (nonlinear_arith);
    assert(parts_sum(amount, shares) <= amount);
}

/// The transfers of a split are its positive payouts in order, so they
/// add up to the same total; and each one moves a positive amount of
/// `token` from the payer.
proof fn lemma_transfers_upto_total(
    token: Principal,
    payer: Principal,
    recipients: Seq<Principal>,
    shares: Seq<u32>,
    amount: int,
    n: int,
)
    requires
        0 <= n,
        forall|i: int| 0 <= i < n ==> #[trigger] payout(amount, shares, i) >= 0,
        forall|i: int| 0 <= i < n ==> #[trigger] payout(amount, shares, i) <= i128::MAX,
    ensures
        transfers_total(transfers_upto(token, payer, recipients, shares, amount, n))
            == payouts_total(amount, shares, n),
        forall|j: int|
            0 <= j < transfers_upto(token, payer, recipients, shares, amount, n).len()
                ==> {
                let t = #[trigger] transfers_upto(token, payer, recipients, shares, amount, n)[j];
                &&& t.token == token
                &&& t.from == payer
                &&& t.amount > 0
            },
    decreases n,
{
    if n > 0 {
        lemma_transfers_upto_total(token, payer, recipients, shares, amount, n - 1);
        let prev = transfers_upto(token, payer, recipients, shares, amount, n - 1);
        let p = payout(amount, shares, n - 1);
        if p > 0 {
            let t = Transfer { token, from: payer, to: recipients[n - 1], amount: p as i128 };
            assert(prev.push(t).drop_last() =~= prev);
            assert(prev.push(t).last() == t);
        }
    }
}

impl SplitRouter {
    /// Split `amount` of `token` from `payer` across `recipients` by
    /// the basis-point shares in `shares_bps`. The request is validated
    /// fail-fast (`split_check`); on success the result lists the
    /// transfers the runtime must perform — every recipient but the
    /// last gets the floor of its share, the last absorbs the
    /// remainder, zero parts move nothing — and the event to publish.
    /// The transfers add up to `amount` exactly.
    pub fn split(
        token: Principal,
        payer: Principal,
        recipients: &Vec<Principal>,
        shares_bps: &Vec<u32>,
        amount: i128,
        authorized: &Vec<Principal>,
    ) -> (r: Result<SplitOutcome, SplitError>)
        requires
            amount * (BPS_DENOM as int) <= i128::MAX,
        ensures
            match r {
                Ok(o) => {
                    &&& split_check(payer, recipients@, shares_bps@, amount as int, authorized@)
                        == Ok::<(), SplitError>(())
                    &&& o.transfers@ == transfers_upto(
                        token,
                        payer,
                        recipients@,
                        shares_bps@,
                        amount as int,
                        recipients@.len() as int,
                    )
                    &&& transfers_total(o.transfers@) == amount
                    &&& o.event == Event::SplitExecuted
                    &&& o.payer == payer
                    &&& o.total == amount
                },
                Err(e) => split_check(payer, recipients@, shares_bps@, amount as int, authorized@)
                    == Err::<(), SplitError>(e),
            },
    {
        if amount <= 0 {
            return Err(SplitError::NonPositiveAmount);
        }
        if recipients.len() == 0 {
            return Err(SplitError::NoRecipients);
        }
        if recipients.len() != shares_bps.len() {
            return Err(SplitError::LengthMismatch);
        }
        let n = recipients.len();

        // the shares must sum to exactly BPS_DENOM
        let mut total_bps: u64 = 0;
        let mut i: usize = 0;
        while i < n
            invariant
                0 < amount,
                n == shares_bps@.len(),
                n == recipients@.len(),
                n >= 1,
                0 <= i <= n,
                total_bps == sum_bps(shares_bps@.take(i as int)),
                total_bps <= BPS_DENOM as u64,
            decreases n - i,
        {
            let b = shares_bps[i];
            proof {
                lemma_sum_bps_take_step(shares_bps@, i as int);
            }
            let next: u64 = total_bps + (b as u64);
            if next > BPS_DENOM as u64 {
                proof {
                    lemma_sum_bps_take_le(shares_bps@, i + 1);
                }
                return Err(SplitError::InvalidShares);
            }
            total_bps = next;
            i = i + 1;
        }
        proof {
            assert(shares_bps@.take(n as int) =~= shares_bps@);
        }
        if total_bps != BPS_DENOM as u64 {
            return Err(SplitError::InvalidShares);
        }
        if !grants(authorized, payer) {
            return Err(SplitError::Unauthorized);
        }

        // floor parts, accumulating their sum
        let mut parts: Vec<i128> = Vec::new();
        let mut acc: i128 = 0;
        let mut i: usize = 0;
        while i < n
            invariant
                n == shares_bps@.len(),
                0 < amount,
                amount * (BPS_DENOM as int) <= i128::MAX,
                sum_bps(shares_bps@) == BPS_DENOM as int,
                0 <= i <= n,
                parts@.len() == i,
                forall|k: int|
                    0 <= k < i ==> parts@[k] == floor_share(amount as int, shares_bps@[k] as int),
                acc == parts_sum(amount as int, shares_bps@.take(i as int)),
                0 <= acc <= amount,
            decreases n - i,
        {
            let b = shares_bps[i];
            proof {
                lemma_element_le_sum(shares_bps@, i as int);
                lemma_floor_share_bounds(amount as int, b as int);
                lemma_mul_inequality(b as int, BPS_DENOM as int, amount as int);
                assert(amount * (b as int) == (b as int) * amount) by (nonlinear_arith);
                assert(amount * (BPS_DENOM as int) == (BPS_DENOM as int) * amount)
                    by (nonlinear_arith);
            }
            let part: i128 = amount * (b as i128) / (BPS_DENOM as i128);
            proof {
                lemma_sum_bps_take_step(shares_bps@, i as int);
                lemma_prefix_parts_le_amount(amount as int, shares_bps@, i + 1);
            }
            acc = acc + part;
            parts.push(part);
            i = i + 1;
        }
        // the last recipient absorbs the rounding remainder
        let last_idx: usize = n - 1;
        let last_part: i128 = parts[last_idx];
        proof {
            let am = amount as int;
            let sh = shares_bps@;
            let j = n as int - 1;
            lemma_element_le_sum(sh, j);
            lemma_floor_share_bounds(am, sh[j] as int);
            lemma_prefix_parts_le_amount(am, sh, j);
            lemma_sum_bps_take_step(sh, j);
            assert(sh.take(j + 1) =~= sh);
            assert(parts_sum(am, sh.take(j + 1)) == parts_sum(am, sh.take(j)) + floor_share(
                am,
                sh[j] as int,
            ));
            assert(sh.take(n as int) =~= sh);
            assert(acc == parts_sum(am, sh));
            assert(last_part + (am - acc) == am - parts_sum(am, sh.take(j)));
        }
        let remainder: i128 = amount - acc;
        parts[last_idx] = last_part + remainder;
        proof {
            assert(parts@[n - 1] == payout(amount as int, shares_bps@, n as int - 1));
            lemma_split_conservation(amount as int, shares_bps@);
        }

        // one transfer per positive payout, in recipient order
        let mut transfers: Vec<Transfer> = Vec::new();
        let mut i: usize = 0;
        while i < n
            invariant
                n == shares_bps@.len(),
                n == recipients@.len(),
                n >= 1,
                0 < amount,
                parts@.len() == n,
                forall|k: int|
                    0 <= k < n ==> parts@[k] == payout(amount as int, shares_bps@, k),
                forall|k: int|
                    0 <= k < n ==> 0 <= #[trigger] payout(amount as int, shares_bps@, k)
                        <= amount,
                0 <= i <= n,
                transfers@ == transfers_upto(
                    token,
                    payer,
                    recipients@,
                    shares_bps@,
                    amount as int,
                    i as int,
                ),
            decreases n - i,
        {
            let amt: i128 = parts[i];
            if amt > 0 {
                transfers.push(
                    Transfer { token, from: payer, to: recipients[i], amount: amt },
                );
            }
            i = i + 1;
        }
        proof {
            lemma_transfers_upto_total(
                token,
                payer,
                recipients@,
                shares_bps@,
                amount as int,
                n as int,
            );
        }
        Ok(SplitOutcome { transfers, event: Event::SplitExecuted, payer, total: amount })
    }
}

} // verus!
