use lumen_core::ledger::Transfer;
use lumen_core::lumen_pass::{Config, Error, LumenPass};

const CREATOR: u64 = 1;
const TOKEN: u64 = 2;
const PLATFORM: u64 = 9;
const USER: u64 = 4;

fn pass(price: i128, duration: u32, platform: Option<u64>, fee_bps: u32) -> LumenPass {
    let mut p = LumenPass::new();
    p.init(CREATOR, TOKEN, price, duration, platform, fee_bps, &vec![CREATOR])
        .unwrap();
    p
}

#[test]
fn entitlement_stacking() {
    let mut p = pass(100, 1000, None, 0);
    let o = p.subscribe(USER, 500, &vec![USER]).unwrap();
    assert_eq!(o.new_expiry, 1500);
    // buying again before expiry extends from the old expiry, not from now
    let o = p.subscribe(USER, 1200, &vec![USER]).unwrap();
    assert_eq!(o.new_expiry, 2500);
    // buying after expiry starts from now
    let o = p.subscribe(USER, 3000, &vec![USER]).unwrap();
    assert_eq!(o.new_expiry, 4000);
    assert_eq!(p.expires_at(USER), Some(4000));
}

#[test]
fn entitlement_boundary_is_inclusive() {
    let mut p = pass(100, 1000, None, 0);
    let o = p.subscribe(USER, 500, &vec![USER]).unwrap();
    assert!(p.is_member(USER, o.new_expiry));
    assert!(!p.is_member(USER, o.new_expiry + 1));
    assert!(!p.is_member(42, 0));
}

#[test]
fn expiry_saturates_at_the_largest_sequence() {
    let mut p = pass(100, 1000, None, 0);
    let o = p.subscribe(USER, u32::MAX - 5, &vec![USER]).unwrap();
    assert_eq!(o.new_expiry, u32::MAX);
    // a further purchase stays pinned at the maximum
    let o = p.subscribe(USER, u32::MAX - 1, &vec![USER]).unwrap();
    assert_eq!(o.new_expiry, u32::MAX);
}

#[test]
fn subscription_splits_price_with_platform() {
    let mut p = pass(200, 1000, Some(PLATFORM), 250);
    let o = p.subscribe(USER, 0, &vec![USER]).unwrap();
    assert_eq!(o.transfers.len(), 2);
    assert_eq!(
        o.transfers[0],
        Transfer { token: TOKEN, from: USER, to: CREATOR, amount: 195 }
    );
    assert_eq!(
        o.transfers[1],
        Transfer { token: TOKEN, from: USER, to: PLATFORM, amount: 5 }
    );
    assert_eq!(o.event.user, USER);
    assert_eq!(o.event.amount, 200);
    assert_eq!(o.event.expiry, o.new_expiry);
}

#[test]
fn fee_is_waived_without_a_platform() {
    // the fee is configured but nobody is there to take it: the whole
    // price goes to the creator
    let mut p = pass(200, 1000, None, 250);
    let o = p.subscribe(USER, 0, &vec![USER]).unwrap();
    assert_eq!(o.transfers.len(), 1);
    assert_eq!(
        o.transfers[0],
        Transfer { token: TOKEN, from: USER, to: CREATOR, amount: 200 }
    );
}

#[test]
fn fee_that_floors_to_zero_is_waived() {
    let mut p = pass(3, 1000, Some(PLATFORM), 250);
    let o = p.subscribe(USER, 0, &vec![USER]).unwrap();
    assert_eq!(o.transfers.len(), 1);
    assert_eq!(o.transfers[0].amount, 3);
}

#[test]
fn zero_fee_bps_sends_everything_to_the_creator() {
    let mut p = pass(200, 1000, Some(PLATFORM), 0);
    let o = p.subscribe(USER, 0, &vec![USER]).unwrap();
    assert_eq!(o.transfers.len(), 1);
    assert_eq!(o.transfers[0].amount, 200);
}

#[test]
fn initializer_is_idempotent_in_failure() {
    let mut p = pass(100, 1000, Some(PLATFORM), 250);
    let r = p.init(CREATOR, TOKEN, 500, 9, None, 0, &vec![CREATOR]);
    assert_eq!(r.unwrap_err(), Error::AlreadyInitialized);
    // no configuration field changed
    assert_eq!(
        p.config(),
        Config {
            creator: CREATOR,
            token: TOKEN,
            price: 100,
            duration_ledgers: 1000,
            platform: Some(PLATFORM),
            fee_bps: 250,
        }
    );
    assert_eq!(p.price(), 100);
}

#[test]
fn initializer_validates_its_arguments() {
    let mut p = LumenPass::new();
    let r = p.init(CREATOR, TOKEN, 0, 1000, None, 0, &vec![CREATOR]);
    assert_eq!(r.unwrap_err(), Error::InvalidPrice);
    let r = p.init(CREATOR, TOKEN, 100, 0, None, 0, &vec![CREATOR]);
    assert_eq!(r.unwrap_err(), Error::InvalidDuration);
    let r = p.init(CREATOR, TOKEN, 100, 1000, None, 10001, &vec![CREATOR]);
    assert_eq!(r.unwrap_err(), Error::FeeBpsTooHigh);
    let r = p.init(CREATOR, TOKEN, 100, 1000, None, 250, &vec![USER]);
    assert_eq!(r.unwrap_err(), Error::Unauthorized);
}

#[test]
fn subscribe_validates_state_and_authorization() {
    let mut p = LumenPass::new();
    let r = p.subscribe(USER, 0, &vec![USER]);
    assert_eq!(r.unwrap_err(), Error::NotInitialized);
    let mut p = pass(100, 1000, None, 0);
    let r = p.subscribe(USER, 0, &vec![CREATOR]);
    assert_eq!(r.unwrap_err(), Error::Unauthorized);
}

#[test]
fn expiries_are_tracked_per_principal() {
    let mut p = pass(100, 1000, None, 0);
    p.subscribe(USER, 0, &vec![USER]).unwrap();
    p.subscribe(8, 200, &vec![8u64]).unwrap();
    assert_eq!(p.expires_at(USER), Some(1000));
    assert_eq!(p.expires_at(8), Some(1200));
    assert_eq!(p.expires_at(99), None);
}
