//! How much may be bet: the absolute bounds, the limits configured for all
//! markets or for one, and the cap on single bets of a market.
use vstd::prelude::*;

use crate::error::Error;
use crate::host::IdMap;
use crate::ledger::{Ledger, LedgerView};
use crate::types::{BetLimits, Symbol};

verus! {

/// Minimum bet amount (0.1 XLM = 1,000,000 stroops). Absolute floor for any configured limit.
pub const MIN_BET_AMOUNT: i128 = 1_000_000;

/// Maximum bet amount (10,000 XLM = 100,000,000,000 stroops). Absolute ceiling for any configured limit.
pub const MAX_BET_AMOUNT: i128 = 100_000_000_000;

/// Maximum number of bets in one batch.
pub const MAX_BATCH_SIZE: u32 = 50;

/// Whether limits may be configured: they are in order and lie within the
/// absolute bounds.
pub open spec fn limits_check(limits: BetLimits) -> Result<(), Error> {
    if limits.min_bet > limits.max_bet {
        Err(Error::InvalidInput)
    } else if limits.min_bet < MIN_BET_AMOUNT {
        Err(Error::InsufficientStake)
    } else if limits.max_bet > MAX_BET_AMOUNT {
        Err(Error::InvalidInput)
    } else {
        Ok(())
    }
}

/// Limits by market, kept by the Soroban host as two maps with the same keys.
pub struct EventLimits {
    least: IdMap,
    most: IdMap,
}

impl View for EventLimits {
    type V = Map<u64, BetLimits>;

    closed spec fn view(&self) -> Map<u64, BetLimits> {
        Map::new(
            |id: u64| self.least@.contains_key(id),
            |id: u64| BetLimits { min_bet: self.least@[id], max_bet: self.most@[id] },
        )
    }
}

impl EventLimits {
    #[verifier::type_invariant]
    spec fn well_formed(self) -> bool {
        self.least@.dom() == self.most@.dom()
    }

    /// No limits for any market.
    pub fn new(env: &soroban_sdk::Env) -> (l: EventLimits)
        ensures
            l@ == Map::<u64, BetLimits>::empty(),
    {
        let l = EventLimits { least: IdMap::new(env), most: IdMap::new(env) };
        proof {
            assert(l@ =~= Map::<u64, BetLimits>::empty());
        }
        l
    }

    /// The limits of a market, if it has any.
    pub fn get(&self, id: u64) -> (r: Option<BetLimits>)
        ensures
            r == crate::host::lookup(self@, id),
    {
        proof {
            use_type_invariant(self);
            assert(self.least@.dom().contains(id) == self.most@.dom().contains(id));
        }
        match (self.least.get(id), self.most.get(id)) {
            (Some(min_bet), Some(max_bet)) => Some(BetLimits { min_bet, max_bet }),
            _ => None,
        }
    }

    /// The limits with those of one market set, or `None` where there is no room
    /// for them.
    pub fn with(&self, id: u64, limits: &BetLimits) -> (r: Option<EventLimits>)
        ensures
            r is Some <==> crate::host::has_room(self@, id),
            r matches Some(l) ==> l@ == self@.insert(id, *limits),
    {
        proof {
            use_type_invariant(self);
            assert(self@.dom() =~= self.least@.dom());
            assert(self.least@.dom().contains(id) == self.most@.dom().contains(id));
        }
        match (self.least.with(id, limits.min_bet), self.most.with(id, limits.max_bet)) {
            (Some(least), Some(most)) => {
                proof {
                    assert(least@.dom() =~= most@.dom());
                }
                let l = EventLimits { least, most };
                proof {
                    assert(l@ =~= self@.insert(id, *limits));
                }
                Some(l)
            },
            _ => None,
        }
    }
}

impl LedgerView {
    /// Whether `limits` may be set for `market_id`: they may be configured, and
    /// there is room for them.
    pub open spec fn event_limits_check(self, market_id: Symbol, limits: BetLimits) -> Result<
        (),
        Error,
    > {
        if limits_check(limits) is Err {
            limits_check(limits)
        } else if !crate::host::has_room(self.event_limits, market_id.id) {
            Err(Error::InvalidInput)
        } else {
            Ok(())
        }
    }

    /// Whether single bets on `market_id` may be capped at `cap`.
    pub open spec fn market_cap_check(self, market_id: Symbol, cap: i128) -> Result<(), Error> {
        if 0 < cap <= MAX_BET_AMOUNT && crate::host::has_room(self.market_caps, market_id.id) {
            Ok(())
        } else {
            Err(Error::InvalidInput)
        }
    }

    /// The limits that apply to `market_id`: its own, else those for all
    /// markets, else the absolute bounds.
    pub open spec fn effective_limits(self, market_id: Symbol) -> BetLimits {
        if self.event_limits.contains_key(market_id.id) {
            self.event_limits[market_id.id]
        } else if self.global_limits is Some {
            self.global_limits->0
        } else {
            BetLimits { min_bet: MIN_BET_AMOUNT, max_bet: MAX_BET_AMOUNT }
        }
    }

    /// The cap on single bets on `market_id`, if there is one.
    pub open spec fn market_cap(self, market_id: Symbol) -> Option<i128> {
        crate::host::lookup(self.market_caps, market_id.id)
    }

    /// The ledger once `limits` apply to every market without limits of its own.
    pub open spec fn with_global_limits(self, limits: BetLimits) -> LedgerView {
        LedgerView { global_limits: Some(limits), ..self }
    }

    /// The ledger once `limits` apply to `market_id`.
    pub open spec fn with_event_limits(self, market_id: Symbol, limits: BetLimits) -> LedgerView {
        LedgerView { event_limits: self.event_limits.insert(market_id.id, limits), ..self }
    }

    /// The ledger once single bets on `market_id` are capped.
    pub open spec fn with_market_cap(self, market_id: Symbol, cap: i128) -> LedgerView {
        LedgerView { market_caps: self.market_caps.insert(market_id.id, cap), ..self }
    }

    /// The ledger once single bets on `market_id` are not capped.
    pub open spec fn without_market_cap(self, market_id: Symbol) -> LedgerView {
        LedgerView { market_caps: self.market_caps.remove(market_id.id), ..self }
    }
}

/// The limits that apply to a market: its own where they are set, else those
/// for all markets, else [`MIN_BET_AMOUNT`] and [`MAX_BET_AMOUNT`].
pub fn get_effective_bet_limits(env: &Ledger, market_id: &Symbol) -> (r: BetLimits)
    ensures
        r == env@.effective_limits(*market_id),
{
    if let Some(limits) = env.event_limits.get(market_id.id) {
        return limits;
    }
    match env.global_limits {
        Some(limits) => limits,
        None => BetLimits { min_bet: MIN_BET_AMOUNT, max_bet: MAX_BET_AMOUNT },
    }
}

/// Sets the limits of every market without limits of its own.
///
/// # Errors
///
/// [`Error::InvalidInput`] when `min_bet > max_bet` or `max_bet` is above
/// [`MAX_BET_AMOUNT`]; [`Error::InsufficientStake`] when `min_bet` is below
/// [`MIN_BET_AMOUNT`].
pub fn set_global_bet_limits(env: &mut Ledger, limits: &BetLimits) -> (r: Result<(), Error>)
    ensures
        r == limits_check(*limits),
        final(env)@ == (if r is Ok {
            old(env)@.with_global_limits(*limits)
        } else {
            old(env)@
        }),
        old(env)@.well_formed() ==> final(env)@.well_formed(),
{
    proof {
        if env@.well_formed() && limits_check(*limits) is Ok {
            crate::bookkeeping::law_global_limits_keep_books(env@, *limits);
        }
    }
    validate_limits_bounds(limits)?;
    env.global_limits = Some(*limits);
    Ok(())
}

/// Sets the limits of one market, which go before those for all markets.
///
/// # Errors
///
/// As for [`set_global_bet_limits`], and [`Error::InvalidInput`] when the map of
/// limits is full.
pub fn set_event_bet_limits(env: &mut Ledger, market_id: &Symbol, limits: &BetLimits) -> (r: Result<
    (),
    Error,
>)
    ensures
        r == old(env)@.event_limits_check(*market_id, *limits),
        final(env)@ == (if r is Ok {
            old(env)@.with_event_limits(*market_id, *limits)
        } else {
            old(env)@
        }),
        old(env)@.well_formed() ==> final(env)@.well_formed(),
{
    proof {
        if env@.well_formed() && limits_check(*limits) is Ok {
            crate::bookkeeping::law_event_limits_keep_books(env@, *market_id, *limits);
        }
    }
    validate_limits_bounds(limits)?;
    match env.event_limits.with(market_id.id, limits) {
        Some(event_limits) => {
            env.event_limits = event_limits;
            Ok(())
        },
        None => Err(Error::InvalidInput),
    }
}

/// Caps single bets on a market. The cap holds beside the limits.
///
/// # Errors
///
/// [`Error::InvalidInput`] when `cap` is not positive or is above
/// [`MAX_BET_AMOUNT`], and when the map of caps is full.
pub fn set_market_max_bet_cap(env: &mut Ledger, market_id: &Symbol, cap: i128) -> (r: Result<
    (),
    Error,
>)
    ensures
        r == old(env)@.market_cap_check(*market_id, cap),
        final(env)@ == (if r is Ok {
            old(env)@.with_market_cap(*market_id, cap)
        } else {
            old(env)@
        }),
        old(env)@.well_formed() ==> final(env)@.well_formed(),
{
    proof {
        if env@.well_formed() {
            crate::bookkeeping::lemma_same_books(env@, env@.with_market_cap(*market_id, cap));
        }
    }
    if cap <= 0 || cap > MAX_BET_AMOUNT {
        return Err(Error::InvalidInput);
    }
    match env.market_caps.with(market_id.id, cap) {
        Some(market_caps) => {
            env.market_caps = market_caps;
            Ok(())
        },
        None => Err(Error::InvalidInput),
    }
}

/// Takes the cap on single bets off a market.
pub fn remove_market_max_bet_cap(env: &mut Ledger, market_id: &Symbol)
    ensures
        final(env)@ == old(env)@.without_market_cap(*market_id),
        old(env)@.well_formed() ==> final(env)@.well_formed(),
{
    proof {
        if env@.well_formed() {
            crate::bookkeeping::lemma_same_books(env@, env@.without_market_cap(*market_id));
        }
    }
    env.market_caps = env.market_caps.without(market_id.id);
}

/// The cap on single bets on a market, if there is one.
pub fn get_market_max_bet_cap(env: &Ledger, market_id: &Symbol) -> (r: Option<i128>)
    ensures
        r == env@.market_cap(*market_id),
{
    env.market_caps.get(market_id.id)
}

/// Refuses limits that are out of order or outside the absolute bounds.
pub fn validate_limits_bounds(limits: &BetLimits) -> (r: Result<(), Error>)
    ensures
        r == limits_check(*limits),
{
    if limits.min_bet > limits.max_bet {
        return Err(Error::InvalidInput);
    }
    if limits.min_bet < MIN_BET_AMOUNT {
        return Err(Error::InsufficientStake);
    }
    if limits.max_bet > MAX_BET_AMOUNT {
        return Err(Error::InvalidInput);
    }
    Ok(())
}

} // verus!
