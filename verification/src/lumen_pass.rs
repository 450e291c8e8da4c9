//! The entitlement ledger: a per-principal expiring membership window.
//!
//! A subscription is bought at a flat price split between the creator
//! and, when one is configured, the platform. Each purchase extends the
//! buyer's window by the configured duration, stacking on whatever is
//! left: the new expiry counts from the later of the old expiry and
//! now, so unused time is never lost. The expiry ledger itself still
//! counts as a member.

use vstd::prelude::*;
use crate::ledger::{Principal, Transfer, grants};
use crate::shares::{BPS_DENOM, floor_share, lemma_floor_share_bounds};
use crate::store::Store64;
use crate::split_router::transfers_total;
use vstd::arithmetic::mul::lemma_mul_inequality;

verus! {

/// Why a pass call is refused.
#[derive(Clone, Copy, Debug, PartialEq, Eq, Structural)]
pub enum Error {
    /// The pass already holds a configuration.
    AlreadyInitialized,
    /// The subscription price was zero or negative.
    InvalidPrice,
    /// The subscription duration was zero.
    InvalidDuration,
    /// The fee exceeds `BPS_DENOM` basis points.
    FeeBpsTooHigh,
    /// The acting principal has not authorized the call.
    Unauthorized,
    /// The pass holds no configuration yet.
    NotInitialized,
}

/// The event a successful subscription publishes.
#[derive(Clone, Copy, Debug, PartialEq, Eq, Structural)]
pub struct SubscriptionEvent {
    pub user: Principal,
    pub amount: i128,
    pub expiry: u32,
}

/// The write-once pass policy, set at initialization and never
/// updated afterward.
#[derive(Clone, Copy, Debug, PartialEq, Eq)]
pub struct Config {
    pub creator: Principal,
    pub token: Principal,
    pub price: i128,
    pub duration_ledgers: u32,
    pub platform: Option<Principal>,
    pub fee_bps: u32,
}

/// What a successful subscription asks the ledger runtime to do, and
/// the new expiry it persisted.
#[derive(Debug)]
pub struct SubscribeOutcome {
    pub transfers: Vec<Transfer>,
    pub event: SubscriptionEvent,
    pub new_expiry: u32,
}

/// The entitlement ledger component.
pub struct LumenPass {
    config: Option<Config>,
    members: Store64<u32>,
}

/// The platform's cut of one subscription: the basis-point fee of the
/// price, waived — not merely zeroed — when no platform is configured
/// or the fee rounds down to nothing.
pub open spec fn platform_share(c: Config) -> int {
    let fee = if c.fee_bps == 0 {
        0
    } else {
        floor_share(c.price as int, c.fee_bps as int)
    };
    if fee > 0 && c.platform is Some {
        fee
    } else {
        0
    }
}

/// The transfers one subscription performs: the price less the
/// platform's share to the creator (always, even when nothing is
/// left), then the platform's share when it is positive.
pub open spec fn subscribe_transfers(c: Config, user: Principal) -> Seq<Transfer> {
    let to_creator = Transfer {
        token: c.token,
        from: user,
        to: c.creator,
        amount: (c.price - platform_share(c)) as i128,
    };
    if platform_share(c) > 0 {
        seq![
            to_creator,
            Transfer {
                token: c.token,
                from: user,
                to: c.platform.unwrap(),
                amount: platform_share(c) as i128,
            },
        ]
    } else {
        seq![to_creator]
    }
}

/// The stacked expiry of one purchase: the configured duration on top
/// of the later of the prior expiry and now (a missing record counts
/// as expiring now), saturating at the largest ledger sequence instead
/// of wrapping.
pub open spec fn stacked_expiry(prior: Option<u32>, now: u32, duration: u32) -> u32 {
    let base = match prior {
        Some(e) => if e > now {
            e
        } else {
            now
        },
        None => now,
    };
    if base + duration > u32::MAX {
        u32::MAX
    } else {
        (base + duration) as u32
    }
}

/// Subscription settlement conservation: the transfers of one purchase
/// add up to the configured price exactly — the platform's share plus
/// the creator's rest — and the share never exceeds the price.
pub proof fn lemma_subscribe_conservation(c: Config, user: Principal)
    requires
        c.price > 0,
        c.fee_bps <= BPS_DENOM,
    ensures
        transfers_total(subscribe_transfers(c, user)) == c.price,
        0 <= platform_share(c) <= c.price,
{
    if c.fee_bps != 0 {
        lemma_floor_share_bounds(c.price as int, c.fee_bps as int);
    }
    let share = platform_share(c);
    let ts = subscribe_transfers(c, user);
    let to_creator = Transfer {
        token: c.token,
        from: user,
        to: c.creator,
        amount: (c.price - share) as i128,
    };
    assert(transfers_total(Seq::<Transfer>::empty()) == 0);
    if share > 0 {
        assert(seq![to_creator].drop_last() =~= Seq::<Transfer>::empty());
        assert(transfers_total(seq![to_creator]) == c.price - share);
        assert(ts.drop_last() =~= seq![to_creator]);
        assert(ts.last().amount == share as i128);
        assert(transfers_total(ts) == (c.price - share) + share);
    } else {
        assert(ts.drop_last() =~= Seq::<Transfer>::empty());
        assert(ts.last() == to_creator);
        assert(transfers_total(ts) == c.price - share);
    }
}

impl LumenPass {
    /// The configuration, once initialized.
    pub closed spec fn cfg(&self) -> Option<Config> {
        self.config
    }

    /// The members' expiries by principal.
    pub closed spec fn members_map(&self) -> Map<u64, u32> {
        self.members@
    }

    /// Internal invariant: the store is well-formed and the stored
    /// configuration passed its validation.
    pub closed spec fn wf(&self) -> bool {
        &&& self.members.wf()
        &&& match self.config {
            Some(c) => c.price > 0 && c.duration_ledgers > 0 && c.fee_bps <= BPS_DENOM,
            None => true,
        }
    }

    /// Whether the configured price is small enough to be multiplied by
    /// a basis-point fee without overflowing an `i128`; `subscribe`
    /// demands this of its caller.
    pub open spec fn price_fits(&self) -> bool {
        match self.cfg() {
            Some(c) => c.price * (BPS_DENOM as int) <= i128::MAX,
            None => true,
        }
    }

    /// The fail-fast validation of `init`, in checking order.
    pub open spec fn init_check(
        &self,
        creator: Principal,
        price: int,
        duration_ledgers: u32,
        fee_bps: u32,
        authorized: Seq<Principal>,
    ) -> Result<(), Error> {
        if self.cfg() is Some {
            Err(Error::AlreadyInitialized)
        } else if price <= 0 {
            Err(Error::InvalidPrice)
        } else if duration_ledgers == 0 {
            Err(Error::InvalidDuration)
        } else if fee_bps > BPS_DENOM {
            Err(Error::FeeBpsTooHigh)
        } else if !authorized.contains(creator) {
            Err(Error::Unauthorized)
        } else {
            Ok(())
        }
    }

    /// The fail-fast validation of `subscribe`: the pass must be
    /// initialized (checked first) and the user must have authorized
    /// the call.
    pub open spec fn subscribe_check(
        &self,
        user: Principal,
        authorized: Seq<Principal>,
    ) -> Result<(), Error> {
        if self.cfg() is None {
            Err(Error::NotInitialized)
        } else if !authorized.contains(user) {
            Err(Error::Unauthorized)
        } else {
            Ok(())
        }
    }

    /// An empty, not yet initialized pass.
    pub fn new() -> (p: LumenPass)
        ensures
            p.wf(),
            p.cfg() is None,
            p.members_map() == Map::<u64, u32>::empty(),
    {
        LumenPass { config: None, members: Store64::new() }
    }

    /// Store the write-once configuration. Fails with
    /// `AlreadyInitialized` on every call after the first; nothing —
    /// in particular no configuration field — changes on failure.
    pub fn init(
        &mut self,
        creator: Principal,
        token: Principal,
        price: i128,
        duration_ledgers: u32,
        platform: Option<Principal>,
        fee_bps: u32,
        authorized: &Vec<Principal>,
    ) -> (r: Result<(), Error>)
        requires
            old(self).wf(),
        ensures
            final(self).wf(),
            match r {
                Ok(()) => {
                    &&& old(self).init_check(
                        creator,
                        price as int,
                        duration_ledgers,
                        fee_bps,
                        authorized@,
                    ) == Ok::<(), Error>(())
                    &&& final(self).cfg() == Some(
                        Config { creator, token, price, duration_ledgers, platform, fee_bps },
                    )
                    &&& final(self).members_map() == old(self).members_map()
                },
                Err(e) => {
                    &&& old(self).init_check(
                        creator,
                        price as int,
                        duration_ledgers,
                        fee_bps,
                        authorized@,
                    ) == Err::<(), Error>(e)
                    &&& *final(self) == *old(self)
                },
            },
    {
        if self.config.is_some() {
            return Err(Error::AlreadyInitialized);
        }
        if price <= 0 {
            return Err(Error::InvalidPrice);
        }
        if duration_ledgers == 0 {
            return Err(Error::InvalidDuration);
        }
        if fee_bps > BPS_DENOM {
            return Err(Error::FeeBpsTooHigh);
        }
        if !grants(authorized, creator) {
            return Err(Error::Unauthorized);
        }
        self.config = Some(Config { creator, token, price, duration_ledgers, platform, fee_bps });
        Ok(())
    }

    /// Buy one subscription for `user` at ledger sequence `now`: the
    /// flat price is split between creator and platform, and the user's
    /// expiry is extended by the configured duration on top of the
    /// later of the prior expiry and `now` — stacking, not pro-ration:
    /// buying before the old window ends never loses remaining time.
    pub fn subscribe(
        &mut self,
        user: Principal,
        now: u32,
        authorized: &Vec<Principal>,
    ) -> (r: Result<SubscribeOutcome, Error>)
        requires
            old(self).wf(),
            old(self).price_fits(),
        ensures
            final(self).wf(),
            match r {
                Ok(o) => {
                    &&& old(self).subscribe_check(user, authorized@) == Ok::<(), Error>(())
                    &&& o.new_expiry == stacked_expiry(
                        if old(self).members_map().contains_key(user) {
                            Some(old(self).members_map()[user])
                        } else {
                            None
                        },
                        now,
                        old(self).cfg().unwrap().duration_ledgers,
                    )
                    &&& o.transfers@ == subscribe_transfers(old(self).cfg().unwrap(), user)
                    &&& o.event == (SubscriptionEvent {
                        user,
                        amount: old(self).cfg().unwrap().price,
                        expiry: o.new_expiry,
                    })
                    &&& final(self).members_map() == old(self).members_map().insert(
                        user,
                        o.new_expiry,
                    )
                    &&& final(self).cfg() == old(self).cfg()
                },
                Err(e) => {
                    &&& old(self).subscribe_check(user, authorized@) == Err::<(), Error>(e)
                    &&& *final(self) == *old(self)
                },
            },
    {
        let c: Config = match self.config {
            Some(c) => c,
            None => {
                return Err(Error::NotInitialized);
            },
        };
        if !grants(authorized, user) {
            return Err(Error::Unauthorized);
        }

        let fee: i128 = if c.fee_bps == 0 {
            0
        } else {
            proof {
                lemma_floor_share_bounds(c.price as int, c.fee_bps as int);
                lemma_mul_inequality(c.fee_bps as int, BPS_DENOM as int, c.price as int);
                assert(c.price * (c.fee_bps as int) == (c.fee_bps as int) * c.price)
                    by (nonlinear_arith);
                assert(c.price * (BPS_DENOM as int) == (BPS_DENOM as int) * c.price)
                    by (nonlinear_arith);
            }
            c.price * (c.fee_bps as i128) / (BPS_DENOM as i128)
        };
        proof {
            if c.fee_bps != 0 {
                lemma_floor_share_bounds(c.price as int, c.fee_bps as int);
            }
        }
        let share: i128 = if fee > 0 && c.platform.is_some() {
            fee
        } else {
            0
        };
        let to_creator: i128 = c.price - share;

        let mut transfers: Vec<Transfer> = Vec::new();
        transfers.push(Transfer { token: c.token, from: user, to: c.creator, amount: to_creator });
        if share > 0 {
            transfers.push(
                Transfer { token: c.token, from: user, to: c.platform.unwrap(), amount: share },
            );
        }
        proof {
            assert(transfers@ =~= subscribe_transfers(c, user));
        }

        let prior: u32 = match self.members.get(user) {
            Some(e) => *e,
            None => now,
        };
        let base: u32 = if prior > now {
            prior
        } else {
            now
        };
        let new_expiry: u32 = base.saturating_add(c.duration_ledgers);
        self.members.set(user, new_expiry);

        Ok(
            SubscribeOutcome {
                transfers,
                event: SubscriptionEvent { user, amount: c.price, expiry: new_expiry },
                new_expiry,
            },
        )
    }

    /// Load one persisted expiry record back into the component, as the
    /// surrounding runtime does when it rehydrates the pass from its
    /// key-addressed storage before a call.
    pub fn restore_member(&mut self, user: Principal, expiry: u32)
        requires
            old(self).wf(),
        ensures
            final(self).wf(),
            final(self).members_map() == old(self).members_map().insert(user, expiry),
            final(self).cfg() == old(self).cfg(),
    {
        self.members.set(user, expiry);
    }

    /// Whether `user` is a member at ledger sequence `now`: a record
    /// exists and `now` has not passed its expiry — the expiry ledger
    /// itself still counts, the one after it no longer does.
    pub fn is_member(&self, user: Principal, now: u32) -> (r: bool)
        requires
            self.wf(),
        ensures
            r == (self.members_map().contains_key(user) && now <= self.members_map()[user]),
    {
        match self.members.get(user) {
            Some(e) => now <= *e,
            None => false,
        }
    }

    /// The stored expiry of `user`, or `None` for a principal that
    /// never subscribed.
    pub fn expires_at(&self, user: Principal) -> (r: Option<u32>)
        requires
            self.wf(),
        ensures
            r == if self.members_map().contains_key(user) {
                Some(self.members_map()[user])
            } else {
                None::<u32>
            },
    {
        match self.members.get(user) {
            Some(e) => Some(*e),
            None => None,
        }
    }

    /// The configured subscription price.
    pub fn price(&self) -> (r: i128)
        requires
            self.cfg() is Some,
        ensures
            r == self.cfg().unwrap().price,
    {
        self.config.unwrap().price
    }

    /// The whole stored configuration.
    pub fn config(&self) -> (r: Config)
        requires
            self.cfg() is Some,
        ensures
            r == self.cfg().unwrap(),
    {
        self.config.unwrap()
    }
}

} // verus!
