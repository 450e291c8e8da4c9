//! The escrow exchange: a listing lifecycle with fee extraction.
//!
//! A listing is created once per id while no active listing stands at
//! that id, may then be canceled by its seller or bought, and its id
//! becomes reusable once it is inactive. Buying splits the price
//! between the platform (the configured basis-point fee) and the
//! seller, who gets the rest.
//!
//! Canceling follows the source it models permissively: an inactive
//! listing can be canceled again; only existence and the seller's
//! identity gate it.

use vstd::prelude::*;
use crate::ledger::{Principal, Transfer, grants};
use crate::shares::{BPS_DENOM, floor_share, lemma_floor_share_bounds};
use crate::store::Store128;
use crate::split_router::transfers_total;
use vstd::arithmetic::mul::lemma_mul_inequality;

verus! {

/// One listing record: who sells, for how much, and whether the
/// listing is currently active.
#[derive(Clone, Copy, Debug, PartialEq, Eq, Structural)]
pub struct Listing {
    pub seller: Principal,
    pub price: i128,
    pub active: bool,
}

/// The write-once marketplace policy: where fees go and how large they
/// are.
#[derive(Clone, Copy, Debug, PartialEq, Eq, Structural)]
pub struct MarketConfig {
    pub platform: Principal,
    pub fee_bps: u32,
}

#[derive(Clone, Copy, Debug, PartialEq, Eq, Structural)]
pub struct ListedEvent {
    pub id: u128,
    pub seller: Principal,
    pub price: i128,
}

#[derive(Clone, Copy, Debug, PartialEq, Eq, Structural)]
pub struct CanceledEvent {
    pub id: u128,
    pub seller: Principal,
}

#[derive(Clone, Copy, Debug, PartialEq, Eq, Structural)]
pub struct BoughtEvent {
    pub id: u128,
    pub buyer: Principal,
    pub price: i128,
}

/// Why a marketplace call is refused.
#[derive(Clone, Copy, Debug, PartialEq, Eq, Structural)]
pub enum MarketError {
    /// The marketplace already holds a configuration.
    AlreadyInitialized,
    /// The fee exceeds `BPS_DENOM` basis points.
    FeeTooHigh,
    /// The price was zero or negative.
    InvalidPrice,
    /// The acting principal has not authorized the call.
    Unauthorized,
    /// An active listing already stands at this id.
    AlreadyActive,
    /// No listing stands at this id.
    NotFound,
    /// The caller is not the stored seller of this listing.
    NotSeller,
    /// The listing at this id is no longer active.
    Inactive,
    /// The marketplace holds no configuration yet.
    NotInitialized,
}

/// What a successful purchase asks the ledger runtime to do.
#[derive(Debug)]
pub struct BuyOutcome {
    pub transfers: Vec<Transfer>,
    pub fee: i128,
    pub event: BoughtEvent,
}

/// The escrow exchange component.
pub struct Marketplace {
    config: Option<MarketConfig>,
    listings: Store128<Listing>,
}

/// The transfers a purchase performs: the fee to the platform first
/// when there is one, then the rest of the price to the seller
/// (always, even when nothing is left after the fee).
pub open spec fn buy_transfers(
    token: Principal,
    buyer: Principal,
    l: Listing,
    c: MarketConfig,
) -> Seq<Transfer> {
    let fee = floor_share(l.price as int, c.fee_bps as int);
    let to_seller = Transfer {
        token,
        from: buyer,
        to: l.seller,
        amount: (l.price - fee) as i128,
    };
    if fee > 0 {
        seq![Transfer { token, from: buyer, to: c.platform, amount: fee as i128 }, to_seller]
    } else {
        seq![to_seller]
    }
}

/// Two-way fee split conservation: the transfers of one purchase add
/// up to the listing price exactly — the platform's cut, the floor of
/// the configured basis-point fee of the price, plus the seller's rest
/// — and the cut never exceeds the price.
pub proof fn lemma_buy_conservation(
    token: Principal,
    buyer: Principal,
    l: Listing,
    c: MarketConfig,
)
    requires
        l.price > 0,
        c.fee_bps <= BPS_DENOM,
    ensures
        transfers_total(buy_transfers(token, buyer, l, c)) == l.price,
        0 <= floor_share(l.price as int, c.fee_bps as int) <= l.price,
{
    lemma_floor_share_bounds(l.price as int, c.fee_bps as int);
    let fee = floor_share(l.price as int, c.fee_bps as int);
    let ts = buy_transfers(token, buyer, l, c);
    let to_seller = Transfer { token, from: buyer, to: l.seller, amount: (l.price - fee) as i128 };
    assert(transfers_total(Seq::<Transfer>::empty()) == 0);
    if fee > 0 {
        let to_platform = Transfer { token, from: buyer, to: c.platform, amount: fee as i128 };
        assert(seq![to_platform].drop_last() =~= Seq::<Transfer>::empty());
        assert(transfers_total(seq![to_platform]) == fee);
        assert(ts.drop_last() =~= seq![to_platform]);
        assert(ts.last() == to_seller);
        assert(transfers_total(ts) == fee + (l.price - fee));
    } else {
        assert(ts.drop_last() =~= Seq::<Transfer>::empty());
        assert(ts.last() == to_seller);
        assert(transfers_total(ts) == l.price - fee);
    }
}

impl Marketplace {
    /// The configuration, once initialized.
    pub closed spec fn cfg(&self) -> Option<MarketConfig> {
        self.config
    }

    /// The listings by id.
    pub closed spec fn listings_map(&self) -> Map<u128, Listing> {
        self.listings@
    }

    /// Internal invariant: the store is well-formed, a stored fee never
    /// exceeds the basis-point denominator, and every stored listing
    /// has a positive price.
    pub closed spec fn wf(&self) -> bool {
        &&& self.listings.wf()
        &&& match self.config {
            Some(c) => c.fee_bps <= BPS_DENOM,
            None => true,
        }
        &&& forall|id: u128|
            self.listings@.contains_key(id) ==> (#[trigger] self.listings@[id]).price > 0
    }

    /// Whether the listing at `id`, if any, has a price small enough to
    /// be multiplied by a basis-point fee without overflowing an
    /// `i128`; `buy` demands this of its caller.
    pub open spec fn price_fits(&self, id: u128) -> bool {
        self.listings_map().contains_key(id) ==> self.listings_map()[id].price * (
        BPS_DENOM as int) <= i128::MAX
    }

    /// The fail-fast validation of `init`.
    pub open spec fn init_check(&self, fee_bps: u32) -> Result<(), MarketError> {
        if self.cfg() is Some {
            Err(MarketError::AlreadyInitialized)
        } else if fee_bps > BPS_DENOM {
            Err(MarketError::FeeTooHigh)
        } else {
            Ok(())
        }
    }

    /// The fail-fast validation of `list`.
    pub open spec fn list_check(
        &self,
        id: u128,
        seller: Principal,
        price: int,
        authorized: Seq<Principal>,
    ) -> Result<(), MarketError> {
        if price <= 0 {
            Err(MarketError::InvalidPrice)
        } else if !authorized.contains(seller) {
            Err(MarketError::Unauthorized)
        } else if self.listings_map().contains_key(id) && self.listings_map()[id].active {
            Err(MarketError::AlreadyActive)
        } else {
            Ok(())
        }
    }

    /// The fail-fast validation of `cancel`. Deliberately no check of
    /// the active flag, mirroring the permissive source behaviour.
    pub open spec fn cancel_check(
        &self,
        id: u128,
        seller: Principal,
        authorized: Seq<Principal>,
    ) -> Result<(), MarketError> {
        if !authorized.contains(seller) {
            Err(MarketError::Unauthorized)
        } else if !self.listings_map().contains_key(id) {
            Err(MarketError::NotFound)
        } else if self.listings_map()[id].seller != seller {
            Err(MarketError::NotSeller)
        } else {
            Ok(())
        }
    }

    /// The fail-fast validation of `buy`.
    pub open spec fn buy_check(
        &self,
        id: u128,
        buyer: Principal,
        authorized: Seq<Principal>,
    ) -> Result<(), MarketError> {
        if !authorized.contains(buyer) {
            Err(MarketError::Unauthorized)
        } else if !self.listings_map().contains_key(id) {
            Err(MarketError::NotFound)
        } else if !self.listings_map()[id].active {
            Err(MarketError::Inactive)
        } else if self.cfg() is None {
            Err(MarketError::NotInitialized)
        } else {
            Ok(())
        }
    }

    /// An empty, not yet initialized marketplace.
    pub fn new() -> (m: Marketplace)
        ensures
            m.wf(),
            m.cfg() is None,
            m.listings_map() == Map::<u128, Listing>::empty(),
    {
        Marketplace { config: None, listings: Store128::new() }
    }

    /// Store the write-once configuration. Fails with
    /// `AlreadyInitialized` on every call after the first; nothing
    /// changes on failure.
    pub fn init(&mut self, platform: Principal, fee_bps: u32) -> (r: Result<(), MarketError>)
        requires
            old(self).wf(),
        ensures
            final(self).wf(),
            match r {
                Ok(()) => {
                    &&& old(self).init_check(fee_bps) == Ok::<(), MarketError>(())
                    &&& final(self).cfg() == Some(MarketConfig { platform, fee_bps })
                    &&& final(self).listings_map() == old(self).listings_map()
                },
                Err(e) => {
                    &&& old(self).init_check(fee_bps) == Err::<(), MarketError>(e)
                    &&& *final(self) == *old(self)
                },
            },
    {
        if self.config.is_some() {
            return Err(MarketError::AlreadyInitialized);
        }
        if fee_bps > BPS_DENOM {
            return Err(MarketError::FeeTooHigh);
        }
        self.config = Some(MarketConfig { platform, fee_bps });
        Ok(())
    }

    /// Create the listing at `id`. Requires a positive price and the
    /// seller's authorization, and that no active listing stands at
    /// `id`; an id whose previous listing was canceled or bought can be
    /// listed again.
    pub fn list(
        &mut self,
        id: u128,
        seller: Principal,
        price: i128,
        authorized: &Vec<Principal>,
    ) -> (r: Result<ListedEvent, MarketError>)
        requires
            old(self).wf(),
        ensures
            final(self).wf(),
            match r {
                Ok(ev) => {
                    &&& old(self).list_check(id, seller, price as int, authorized@)
                        == Ok::<(), MarketError>(())
                    &&& final(self).listings_map() == old(self).listings_map().insert(
                        id,
                        Listing { seller, price, active: true },
                    )
                    &&& final(self).cfg() == old(self).cfg()
                    &&& ev == (ListedEvent { id, seller, price })
                },
                Err(e) => {
                    &&& old(self).list_check(id, seller, price as int, authorized@)
                        == Err::<(), MarketError>(e)
                    &&& *final(self) == *old(self)
                },
            },
    {
        if price <= 0 {
            return Err(MarketError::InvalidPrice);
        }
        if !grants(authorized, seller) {
            return Err(MarketError::Unauthorized);
        }
        match self.listings.get(id) {
            Some(l) => {
                if l.active {
                    return Err(MarketError::AlreadyActive);
                }
            },
            None => {},
        }
        self.listings.set(id, Listing { seller, price, active: true });
        Ok(ListedEvent { id, seller, price })
    }

    /// Deactivate the listing at `id`. Requires the caller to be its
    /// stored seller, with authorization; mirroring the source, an
    /// already inactive listing is canceled again without complaint.
    pub fn cancel(
        &mut self,
        id: u128,
        seller: Principal,
        authorized: &Vec<Principal>,
    ) -> (r: Result<CanceledEvent, MarketError>)
        requires
            old(self).wf(),
        ensures
            final(self).wf(),
            match r {
                Ok(ev) => {
                    &&& old(self).cancel_check(id, seller, authorized@)
                        == Ok::<(), MarketError>(())
                    &&& final(self).listings_map() == old(self).listings_map().insert(
                        id,
                        Listing {
                            seller,
                            price: old(self).listings_map()[id].price,
                            active: false,
                        },
                    )
                    &&& final(self).cfg() == old(self).cfg()
                    &&& ev == (CanceledEvent { id, seller })
                },
                Err(e) => {
                    &&& old(self).cancel_check(id, seller, authorized@)
                        == Err::<(), MarketError>(e)
                    &&& *final(self) == *old(self)
                },
            },
    {
        if !grants(authorized, seller) {
            return Err(MarketError::Unauthorized);
        }
        let listing: Listing = match self.listings.get(id) {
            Some(l) => *l,
            None => {
                return Err(MarketError::NotFound);
            },
        };
        if listing.seller != seller {
            return Err(MarketError::NotSeller);
        }
        self.listings.set(
            id,
            Listing { seller: listing.seller, price: listing.price, active: false },
        );
        Ok(CanceledEvent { id, seller })
    }

    /// Buy the active listing at `id`: the configured basis-point fee
    /// of the price goes to the platform (when the floor of it is
    /// positive), the rest to the seller, and the listing becomes
    /// inactive — a second purchase of the same id fails with
    /// `Inactive`.
    pub fn buy(
        &mut self,
        token: Principal,
        id: u128,
        buyer: Principal,
        authorized: &Vec<Principal>,
    ) -> (r: Result<BuyOutcome, MarketError>)
        requires
            old(self).wf(),
            old(self).price_fits(id),
        ensures
            final(self).wf(),
            match r {
                Ok(o) => {
                    &&& old(self).buy_check(id, buyer, authorized@) == Ok::<(), MarketError>(())
                    &&& o.fee == floor_share(
                        old(self).listings_map()[id].price as int,
                        old(self).cfg().unwrap().fee_bps as int,
                    )
                    &&& o.transfers@ == buy_transfers(
                        token,
                        buyer,
                        old(self).listings_map()[id],
                        old(self).cfg().unwrap(),
                    )
                    &&& o.event == (BoughtEvent {
                        id,
                        buyer,
                        price: old(self).listings_map()[id].price,
                    })
                    &&& final(self).listings_map() == old(self).listings_map().insert(
                        id,
                        Listing {
                            seller: old(self).listings_map()[id].seller,
                            price: old(self).listings_map()[id].price,
                            active: false,
                        },
                    )
                    &&& final(self).cfg() == old(self).cfg()
                },
                Err(e) => {
                    &&& old(self).buy_check(id, buyer, authorized@) == Err::<(), MarketError>(e)
                    &&& *final(self) == *old(self)
                },
            },
    {
        if !grants(authorized, buyer) {
            return Err(MarketError::Unauthorized);
        }
        let listing: Listing = match self.listings.get(id) {
            Some(l) => *l,
            None => {
                return Err(MarketError::NotFound);
            },
        };
        if !listing.active {
            return Err(MarketError::Inactive);
        }
        let c: MarketConfig = match self.config {
            Some(c) => c,
            None => {
                return Err(MarketError::NotInitialized);
            },
        };
        proof {
            lemma_floor_share_bounds(listing.price as int, c.fee_bps as int);
            lemma_mul_inequality(c.fee_bps as int, BPS_DENOM as int, listing.price as int);
            assert(listing.price * (c.fee_bps as int) == (c.fee_bps as int) * listing.price)
                by (nonlinear_arith);
            assert(listing.price * (BPS_DENOM as int) == (BPS_DENOM as int) * listing.price)
                by (nonlinear_arith);
        }
        let fee: i128 = listing.price * (c.fee_bps as i128) / (BPS_DENOM as i128);
        let to_seller: i128 = listing.price - fee;
        let mut transfers: Vec<Transfer> = Vec::new();
        if fee > 0 {
            transfers.push(Transfer { token, from: buyer, to: c.platform, amount: fee });
        }
        transfers.push(Transfer { token, from: buyer, to: listing.seller, amount: to_seller });
        proof {
            assert(transfers@ =~= buy_transfers(token, buyer, listing, c));
        }
        self.listings.set(
            id,
            Listing { seller: listing.seller, price: listing.price, active: false },
        );
        Ok(
            BuyOutcome {
                transfers,
                fee,
                event: BoughtEvent { id, buyer, price: listing.price },
            },
        )
    }

    /// Load one persisted listing back into the component, as the
    /// surrounding runtime does when it rehydrates the marketplace from
    /// its key-addressed storage before a call. The listing must carry
    /// a positive price, as every listing this component writes does.
    pub fn restore_listing(&mut self, id: u128, listing: Listing)
        requires
            old(self).wf(),
            listing.price > 0,
        ensures
            final(self).wf(),
            final(self).listings_map() == old(self).listings_map().insert(id, listing),
            final(self).cfg() == old(self).cfg(),
    {
        self.listings.set(id, listing);
    }

    /// The listing at `id`, if any.
    pub fn get(&self, id: u128) -> (r: Option<Listing>)
        requires
            self.wf(),
        ensures
            r == if self.listings_map().contains_key(id) {
                Some(self.listings_map()[id])
            } else {
                None::<Listing>
            },
    {
        match self.listings.get(id) {
            Some(l) => Some(*l),
            None => None,
        }
    }
}

} // verus!
