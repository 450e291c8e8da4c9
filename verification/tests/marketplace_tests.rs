use lumen_core::ledger::Transfer;
use lumen_core::marketplace::{Listing, MarketError, Marketplace};

const TOKEN: u64 = 9;
const PLATFORM: u64 = 77;
const SELLER: u64 = 5;
const BUYER: u64 = 6;

fn market_with_fee(fee_bps: u32) -> Marketplace {
    let mut m = Marketplace::new();
    m.init(PLATFORM, fee_bps).unwrap();
    m
}

#[test]
fn exchange_fulfillment_extracts_fee() {
    let mut m = market_with_fee(250);
    m.list(7, SELLER, 200, &vec![SELLER]).unwrap();
    let o = m.buy(TOKEN, 7, BUYER, &vec![BUYER]).unwrap();
    assert_eq!(o.fee, 5);
    assert_eq!(o.transfers.len(), 2);
    assert_eq!(
        o.transfers[0],
        Transfer { token: TOKEN, from: BUYER, to: PLATFORM, amount: 5 }
    );
    assert_eq!(
        o.transfers[1],
        Transfer { token: TOKEN, from: BUYER, to: SELLER, amount: 195 }
    );
    assert_eq!(o.event.id, 7);
    assert_eq!(o.event.buyer, BUYER);
    assert_eq!(o.event.price, 200);
    // the listing is now inactive: a second purchase fails
    let r = m.buy(TOKEN, 7, BUYER, &vec![BUYER]);
    assert_eq!(r.unwrap_err(), MarketError::Inactive);
}

#[test]
fn exchange_zero_fee_goes_whole_to_seller() {
    let mut m = market_with_fee(0);
    m.list(1, SELLER, 200, &vec![SELLER]).unwrap();
    let o = m.buy(TOKEN, 1, BUYER, &vec![BUYER]).unwrap();
    assert_eq!(o.fee, 0);
    assert_eq!(o.transfers.len(), 1);
    assert_eq!(
        o.transfers[0],
        Transfer { token: TOKEN, from: BUYER, to: SELLER, amount: 200 }
    );
}

#[test]
fn exchange_fee_that_floors_to_zero_is_skipped() {
    // 250 bps of 3 floors to 0: no platform transfer at all
    let mut m = market_with_fee(250);
    m.list(1, SELLER, 3, &vec![SELLER]).unwrap();
    let o = m.buy(TOKEN, 1, BUYER, &vec![BUYER]).unwrap();
    assert_eq!(o.fee, 0);
    assert_eq!(o.transfers.len(), 1);
    assert_eq!(o.transfers[0].amount, 3);
}

#[test]
fn exchange_relisting_after_cancel() {
    let mut m = market_with_fee(250);
    m.list(7, SELLER, 100, &vec![SELLER]).unwrap();
    // creating while active fails
    let r = m.list(7, SELLER, 120, &vec![SELLER]);
    assert_eq!(r.unwrap_err(), MarketError::AlreadyActive);
    // after canceling, the id is reusable
    m.cancel(7, SELLER, &vec![SELLER]).unwrap();
    m.list(7, SELLER, 120, &vec![SELLER]).unwrap();
    assert_eq!(
        m.get(7),
        Some(Listing { seller: SELLER, price: 120, active: true })
    );
}

#[test]
fn exchange_relisting_after_fulfillment() {
    let mut m = market_with_fee(250);
    m.list(7, SELLER, 100, &vec![SELLER]).unwrap();
    m.buy(TOKEN, 7, BUYER, &vec![BUYER]).unwrap();
    m.list(7, SELLER, 150, &vec![SELLER]).unwrap();
    assert_eq!(
        m.get(7),
        Some(Listing { seller: SELLER, price: 150, active: true })
    );
}

#[test]
fn cancel_requires_the_stored_seller() {
    let mut m = market_with_fee(250);
    m.list(7, SELLER, 100, &vec![SELLER]).unwrap();
    let r = m.cancel(7, BUYER, &vec![BUYER]);
    assert_eq!(r.unwrap_err(), MarketError::NotSeller);
    let r = m.cancel(7, SELLER, &vec![BUYER]);
    assert_eq!(r.unwrap_err(), MarketError::Unauthorized);
    let r = m.cancel(8, SELLER, &vec![SELLER]);
    assert_eq!(r.unwrap_err(), MarketError::NotFound);
}

#[test]
fn cancel_of_inactive_listing_is_permitted() {
    // mirrors the permissive source behaviour: no active-flag guard
    let mut m = market_with_fee(250);
    m.list(7, SELLER, 100, &vec![SELLER]).unwrap();
    m.cancel(7, SELLER, &vec![SELLER]).unwrap();
    m.cancel(7, SELLER, &vec![SELLER]).unwrap();
    assert_eq!(
        m.get(7),
        Some(Listing { seller: SELLER, price: 100, active: false })
    );
}

#[test]
fn list_validates_price_and_authorization() {
    let mut m = market_with_fee(250);
    let r = m.list(7, SELLER, 0, &vec![SELLER]);
    assert_eq!(r.unwrap_err(), MarketError::InvalidPrice);
    let r = m.list(7, SELLER, -3, &vec![SELLER]);
    assert_eq!(r.unwrap_err(), MarketError::InvalidPrice);
    let r = m.list(7, SELLER, 100, &vec![BUYER]);
    assert_eq!(r.unwrap_err(), MarketError::Unauthorized);
}

#[test]
fn buy_validates_listing_and_config() {
    let mut m = Marketplace::new();
    // listing works before initialization, buying does not
    m.list(7, SELLER, 100, &vec![SELLER]).unwrap();
    let r = m.buy(TOKEN, 7, BUYER, &vec![BUYER]);
    assert_eq!(r.unwrap_err(), MarketError::NotInitialized);
    let r = m.buy(TOKEN, 8, BUYER, &vec![BUYER]);
    assert_eq!(r.unwrap_err(), MarketError::NotFound);
    let r = m.buy(TOKEN, 7, BUYER, &vec![SELLER]);
    assert_eq!(r.unwrap_err(), MarketError::Unauthorized);
}

#[test]
fn initializer_is_write_once() {
    let mut m = Marketplace::new();
    let r = m.init(PLATFORM, 10001);
    assert_eq!(r.unwrap_err(), MarketError::FeeTooHigh);
    m.init(PLATFORM, 250).unwrap();
    let r = m.init(PLATFORM, 300);
    assert_eq!(r.unwrap_err(), MarketError::AlreadyInitialized);
    // the stored policy is unchanged: the fee is still 250 bps
    m.list(7, SELLER, 200, &vec![SELLER]).unwrap();
    let o = m.buy(TOKEN, 7, BUYER, &vec![BUYER]).unwrap();
    assert_eq!(o.fee, 5);
}

#[test]
fn get_of_unknown_id_is_none() {
    let m = Marketplace::new();
    assert_eq!(m.get(7), None);
}
