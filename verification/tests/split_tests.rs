use lumen_core::ledger::Transfer;
use lumen_core::split_router::{Event, SplitError, SplitRouter};

const TOKEN: u64 = 99;
const PAYER: u64 = 10;

#[test]
fn split_remainder_goes_to_last() {
    let recipients = vec![1u64, 2, 3];
    let shares = vec![3333u32, 3333, 3334];
    let auth = vec![PAYER];
    let o = SplitRouter::split(TOKEN, PAYER, &recipients, &shares, 10, &auth).unwrap();
    let amounts: Vec<i128> = o.transfers.iter().map(|t| t.amount).collect();
    assert_eq!(amounts, vec![3, 3, 4]);
    let total: i128 = amounts.iter().sum();
    assert_eq!(total, 10);
    assert_eq!(o.total, 10);
    assert_eq!(o.payer, PAYER);
    assert!(matches!(o.event, Event::SplitExecuted));
}

#[test]
fn split_exact_shares_leave_no_remainder() {
    let recipients = vec![4u64, 5, 6];
    let shares = vec![2500u32, 2500, 5000];
    let auth = vec![PAYER];
    let o = SplitRouter::split(TOKEN, PAYER, &recipients, &shares, 1000, &auth).unwrap();
    let amounts: Vec<i128> = o.transfers.iter().map(|t| t.amount).collect();
    assert_eq!(amounts, vec![250, 250, 500]);
    assert_eq!(
        o.transfers[0],
        Transfer { token: TOKEN, from: PAYER, to: 4, amount: 250 }
    );
    assert_eq!(
        o.transfers[2],
        Transfer { token: TOKEN, from: PAYER, to: 6, amount: 500 }
    );
}

#[test]
fn split_skips_zero_parts() {
    // 1 basis point of 1 floors to 0: no transfer for the first
    // recipient, the last absorbs everything.
    let recipients = vec![1u64, 2];
    let shares = vec![1u32, 9999];
    let auth = vec![PAYER];
    let o = SplitRouter::split(TOKEN, PAYER, &recipients, &shares, 1, &auth).unwrap();
    assert_eq!(o.transfers.len(), 1);
    assert_eq!(o.transfers[0].to, 2);
    assert_eq!(o.transfers[0].amount, 1);
}

#[test]
fn split_single_recipient_gets_everything() {
    let recipients = vec![8u64];
    let shares = vec![10000u32];
    let auth = vec![PAYER];
    let o = SplitRouter::split(TOKEN, PAYER, &recipients, &shares, 7, &auth).unwrap();
    assert_eq!(o.transfers.len(), 1);
    assert_eq!(o.transfers[0].amount, 7);
}

#[test]
fn split_rejects_non_positive_amount() {
    let recipients = vec![1u64];
    let shares = vec![10000u32];
    let auth = vec![PAYER];
    let r = SplitRouter::split(TOKEN, PAYER, &recipients, &shares, 0, &auth);
    assert_eq!(r.unwrap_err(), SplitError::NonPositiveAmount);
    let r = SplitRouter::split(TOKEN, PAYER, &recipients, &shares, -5, &auth);
    assert_eq!(r.unwrap_err(), SplitError::NonPositiveAmount);
}

#[test]
fn split_rejects_empty_recipients() {
    let recipients: Vec<u64> = vec![];
    let shares: Vec<u32> = vec![];
    let auth = vec![PAYER];
    let r = SplitRouter::split(TOKEN, PAYER, &recipients, &shares, 5, &auth);
    assert_eq!(r.unwrap_err(), SplitError::NoRecipients);
}

#[test]
fn split_rejects_length_mismatch() {
    let recipients = vec![1u64, 2];
    let shares = vec![10000u32];
    let auth = vec![PAYER];
    let r = SplitRouter::split(TOKEN, PAYER, &recipients, &shares, 5, &auth);
    assert_eq!(r.unwrap_err(), SplitError::LengthMismatch);
}

#[test]
fn split_rejects_missing_authorization() {
    let recipients = vec![1u64];
    let shares = vec![10000u32];
    let auth = vec![11u64];
    let r = SplitRouter::split(TOKEN, PAYER, &recipients, &shares, 5, &auth);
    assert_eq!(r.unwrap_err(), SplitError::Unauthorized);
}

#[test]
fn split_rejects_bad_share_sums() {
    let auth = vec![PAYER];
    let recipients = vec![1u64, 2];
    let r = SplitRouter::split(TOKEN, PAYER, &recipients, &vec![5000u32, 4999], 5, &auth);
    assert_eq!(r.unwrap_err(), SplitError::InvalidShares);
    let r = SplitRouter::split(TOKEN, PAYER, &recipients, &vec![5000u32, 5001], 5, &auth);
    assert_eq!(r.unwrap_err(), SplitError::InvalidShares);
    // a sum that would overflow a 32-bit counter is just as invalid
    let r = SplitRouter::split(TOKEN, PAYER, &recipients, &vec![u32::MAX, u32::MAX], 5, &auth);
    assert_eq!(r.unwrap_err(), SplitError::InvalidShares);
}

#[test]
fn split_conserves_large_awkward_amounts() {
    let recipients = vec![1u64, 2, 3, 4];
    let shares = vec![1u32, 3332, 3333, 3334];
    let auth = vec![PAYER];
    let amount: i128 = 1_000_000_007;
    let o = SplitRouter::split(TOKEN, PAYER, &recipients, &shares, amount, &auth).unwrap();
    let total: i128 = o.transfers.iter().map(|t| t.amount).sum();
    assert_eq!(total, amount);
    // every listed transfer is positive and from the payer
    for t in &o.transfers {
        assert!(t.amount > 0);
        assert_eq!(t.from, PAYER);
        assert_eq!(t.token, TOKEN);
    }
}

#[test]
fn share_validation_precedes_authorization() {
    // both the shares and the authorization are bad: the share check
    // comes first
    let recipients = vec![1u64, 2];
    let shares = vec![1u32, 2];
    let r = SplitRouter::split(TOKEN, PAYER, &recipients, &shares, 5, &vec![]);
    assert_eq!(r.unwrap_err(), SplitError::InvalidShares);
}
