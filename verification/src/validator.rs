//! What a bet and its market must satisfy.
use vstd::prelude::*;

use crate::error::Error;
use crate::host::IdList;
use crate::ledger::{Effect, Event, Ledger, LedgerView, TtlEntry};
use crate::limits::{
    get_effective_bet_limits, get_market_max_bet_cap, MAX_BET_AMOUNT, MIN_BET_AMOUNT,
};
use crate::types::{Address, Market, MarketState, MarketView, Outcome, Symbol, UserStakeKey};

verus! {

/// The platform fee where nothing configures one, in basis points.
pub const DEFAULT_PLATFORM_FEE_PERCENTAGE: i128 = 200;

impl MarketView {
    /// The time from which on no bets are taken. A deadline of zero stands for
    /// the end of the market; one after the end is malformed.
    pub open spec fn effective_deadline(self) -> Result<u64, Error> {
        if self.bet_deadline == 0 {
            Ok(self.end_time)
        } else if self.bet_deadline > self.end_time {
            Err(Error::InvalidState)
        } else {
            Ok(self.bet_deadline)
        }
    }

    /// Whether bets are taken at time `now`.
    pub open spec fn betting_check(self, now: u64) -> Result<(), Error> {
        if self.state != MarketState::Active {
            Err(Error::MarketClosed)
        } else if self.min_pool_size is Some && self.min_pool_size->0 < 0 {
            Err(Error::InvalidState)
        } else if self.effective_deadline() is Err {
            Err(Error::InvalidState)
        } else if now >= self.effective_deadline()->Ok_0 {
            Err(Error::MarketClosed)
        } else if self.winning_outcomes is Some {
            Err(Error::MarketResolved)
        } else {
            Ok(())
        }
    }
}

impl LedgerView {
    /// Whether `amount` may be bet on `market_id`.
    pub open spec fn amount_check(self, market_id: Symbol, amount: i128) -> Result<(), Error> {
        let limits = self.effective_limits(market_id);
        let cap = self.market_cap(market_id);
        if amount < limits.min_bet {
            Err(Error::InsufficientStake)
        } else if amount > limits.max_bet {
            Err(Error::InvalidInput)
        } else if cap is Some && amount > cap->0 {
            Err(Error::BetExceedsCap)
        } else {
            Ok(())
        }
    }

    /// Whether `amount` may be bet on `outcome` of a market with the outcomes
    /// `valid_outcomes`.
    pub open spec fn parameters_check(
        self,
        market_id: Symbol,
        outcome: Outcome,
        valid_outcomes: Seq<u64>,
        amount: i128,
    ) -> Result<(), Error> {
        if !valid_outcomes.contains(outcome.id) {
            Err(Error::InvalidOutcome)
        } else {
            self.amount_check(market_id, amount)
        }
    }

    /// The platform fee that the slippage check goes by: that of the runtime
    /// configuration, else the one under the legacy key, else the default.
    pub open spec fn slippage_fee(self) -> i128 {
        match self.context.config {
            Some(config) => config.platform_fee_percentage,
            None => match self.context.plat_fee {
                Some(fee) => fee,
                None => DEFAULT_PLATFORM_FEE_PERCENTAGE,
            },
        }
    }

    /// What `user` will have staked on `market_id` after a bet of `amount`, where
    /// the sum fits.
    pub open spec fn stake_sum(self, market_id: Symbol, user: Address, amount: i128) -> Result<
        i128,
        Error,
    > {
        let total = self.user_stake(market_id, user) + amount;
        if crate::math::fits(total) {
            Ok(total as i128)
        } else {
            Err(Error::Overflow)
        }
    }

    /// What `user` will have staked on `market_id` after a bet of `amount`,
    /// unless that is too much.
    pub open spec fn stake_after(self, market_id: Symbol, user: Address, amount: i128) -> Result<
        i128,
        Error,
    > {
        let total = self.stake_sum(market_id, user, amount);
        if total is Ok && self.max_bet_cap is Some && total->Ok_0 > self.max_bet_cap->0 {
            Err(Error::MaxBetCapExceeded)
        } else {
            total
        }
    }

    /// The ledger once the stake of `user` on `market_id` is `stake`.
    pub open spec fn with_user_stake(
        self,
        market_id: Symbol,
        user: Address,
        stake: i128,
    ) -> LedgerView {
        let key = crate::ledger::stake_key(market_id, user);
        LedgerView { user_stakes: self.user_stakes.insert(key, stake), ..self }.asking(
            Effect::ExtendTtl {
                entry: TtlEntry::UserStake { stake: key },
                ledgers: self.context.market_ttl_ledgers,
            },
        )
    }

    /// The ledger once `admin` has capped what one user may stake on one market.
    pub open spec fn with_max_bet_cap(self, admin: Address, cap: i128) -> LedgerView {
        LedgerView { max_bet_cap: Some(cap), ..self }.asking(
            Effect::RequireAuth { address: admin },
        ).asking(
            Effect::ExtendTtl {
                entry: TtlEntry::MaxBetCap,
                ledgers: self.context.market_ttl_ledgers,
            },
        ).asking(Effect::Publish { event: Event::MaxBetCapSet { cap } })
    }

    /// Whether `caller` may set the cap on stakes to `cap`.
    pub open spec fn cap_check(self, caller: Address, cap: i128) -> Result<(), Error> {
        if self.context.admin is None {
            Err(Error::AdminNotSet)
        } else if self.context.admin->0 != caller {
            Err(Error::Unauthorized)
        } else if cap <= 0 {
            Err(Error::InvalidCap)
        } else {
            Ok(())
        }
    }
}

/// The checks on bets.
pub struct BetValidator;

impl BetValidator {
    /// Refuses a market that does not take bets: one that is not active, whose
    /// metadata is malformed, whose betting deadline has passed or that has a
    /// result.
    pub fn validate_market_for_betting(env: &Ledger, market: &Market) -> (r: Result<(), Error>)
        ensures
            r == market@.betting_check(env@.context.timestamp),
    {
        if market.state != MarketState::Active {
            return Err(Error::MarketClosed);
        }
        if let Some(min_pool_size) = market.min_pool_size {
            if min_pool_size < 0 {
                return Err(Error::InvalidState);
            }
        }
        let effective_bet_deadline: u64 = Self::effective_bet_deadline(market)?;
        let current_time: u64 = env.context.timestamp;
        if current_time >= effective_bet_deadline {
            return Err(Error::MarketClosed);
        }
        if market.winning_outcomes.is_some() {
            return Err(Error::MarketResolved);
        }
        Ok(())
    }

    /// The time from which on a market takes no bets.
    ///
    /// # Errors
    ///
    /// [`Error::InvalidState`] when the betting deadline is after the end.
    pub fn effective_bet_deadline(market: &Market) -> (r: Result<u64, Error>)
        ensures
            r == market@.effective_deadline(),
    {
        if market.bet_deadline == 0 {
            return Ok(market.end_time);
        }
        if market.bet_deadline > market.end_time {
            return Err(Error::InvalidState);
        }
        Ok(market.bet_deadline)
    }

    /// Refuses an outcome that the market does not have and an amount that may
    /// not be bet on it.
    pub fn validate_bet_parameters(
        env: &Ledger,
        market_id: &Symbol,
        outcome: &Outcome,
        valid_outcomes: &IdList,
        amount: i128,
    ) -> (r: Result<(), Error>)
        ensures
            r == env@.parameters_check(*market_id, *outcome, valid_outcomes@, amount),
    {
        if !valid_outcomes.contains(outcome.id) {
            return Err(Error::InvalidOutcome);
        }
        Self::validate_bet_amount_against_limits(env, market_id, amount)
    }

    /// Refuses an amount below the least bet, above the greatest, or above the
    /// cap of the market, in that order.
    pub fn validate_bet_amount_against_limits(env: &Ledger, market_id: &Symbol, amount: i128) -> (r:
        Result<(), Error>)
        ensures
            r == env@.amount_check(*market_id, amount),
    {
        let limits = get_effective_bet_limits(env, market_id);
        if amount < limits.min_bet {
            return Err(Error::InsufficientStake);
        }
        if amount > limits.max_bet {
            return Err(Error::InvalidInput);
        }
        if let Some(cap) = get_market_max_bet_cap(env, market_id) {
            if amount > cap {
                return Err(Error::BetExceedsCap);
            }
        }
        Ok(())
    }

    /// Refuses an amount outside the absolute bounds.
    pub fn validate_bet_amount(amount: i128) -> (r: Result<(), Error>)
        ensures
            r == (if amount < MIN_BET_AMOUNT {
                Err::<(), Error>(Error::InsufficientStake)
            } else if amount > MAX_BET_AMOUNT {
                Err(Error::InvalidInput)
            } else {
                Ok(())
            }),
    {
        if amount < MIN_BET_AMOUNT {
            return Err(Error::InsufficientStake);
        }
        if amount > MAX_BET_AMOUNT {
            return Err(Error::InvalidInput);
        }
        Ok(())
    }

    /// Refuses a platform fee above what the caller accepts, in basis points.
    pub fn validate_fee_slippage(env: &Ledger, max_fee_bps: i128) -> (r: Result<(), Error>)
        ensures
            r == (if env@.slippage_fee() > max_fee_bps {
                Err::<(), Error>(Error::FeeExceedsMax)
            } else {
                Ok(())
            }),
    {
        let effective_fee_bps: i128 = match env.context.config {
            Some(config) => config.platform_fee_percentage,
            None => match env.context.plat_fee {
                Some(fee) => fee,
                None => DEFAULT_PLATFORM_FEE_PERCENTAGE,
            },
        };
        if effective_fee_bps > max_fee_bps {
            return Err(Error::FeeExceedsMax);
        }
        Ok(())
    }

    /// The cap on what one user may stake on one market, if there is one.
    pub fn get_max_bet_cap(env: &Ledger) -> (r: Option<i128>)
        ensures
            r == env@.max_bet_cap,
    {
        env.max_bet_cap
    }

    /// Caps what one user may stake on one market. Only the admin may.
    ///
    /// # Errors
    ///
    /// [`Error::AdminNotSet`] when there is no admin, [`Error::Unauthorized`]
    /// when the caller is not the admin, [`Error::InvalidCap`] when the cap is
    /// not positive.
    pub fn set_max_bet_cap(env: &mut Ledger, caller: &Address, cap: i128) -> (r: Result<(), Error>)
        ensures
            r == old(env)@.cap_check(*caller, cap),
            final(env)@ == (if r is Ok {
                old(env)@.with_max_bet_cap(*caller, cap)
            } else {
                old(env)@
            }),
            old(env)@.well_formed() ==> final(env)@.well_formed(),
    {
        proof {
            if env@.well_formed() {
                crate::bookkeeping::lemma_same_books(env@, env@.with_max_bet_cap(*caller, cap));
            }
        }
        match env.context.admin {
            Some(admin) => {
                if *caller != admin {
                    return Err(Error::Unauthorized);
                }
            },
            None => {
                return Err(Error::AdminNotSet);
            },
        }
        if cap <= 0 {
            return Err(Error::InvalidCap);
        }
        env.ask(Effect::RequireAuth { address: *caller });
        env.max_bet_cap = Some(cap);
        let ledgers: u32 = env.context.market_ttl_ledgers;
        env.ask(Effect::ExtendTtl { entry: TtlEntry::MaxBetCap, ledgers });
        env.ask(Effect::Publish { event: Event::MaxBetCapSet { cap } });
        Ok(())
    }

    /// What a user has staked on a market over time; zero before the first bet.
    pub fn get_user_stake(env: &Ledger, market_id: &Symbol, user: &Address) -> (r: i128)
        ensures
            r == env@.user_stake(*market_id, *user),
    {
        let key = UserStakeKey { user: *user, market_id: *market_id };
        match env.user_stakes.get(&key) {
            Some(stake) => *stake,
            None => 0,
        }
    }

    /// Adds to what a user has staked on a market.
    ///
    /// # Errors
    ///
    /// [`Error::Overflow`] when the sum does not fit.
    pub fn update_user_stake(env: &mut Ledger, market_id: &Symbol, user: &Address, amount: i128) -> (r:
        Result<(), Error>)
        ensures
            match old(env)@.stake_sum(*market_id, *user, amount) {
                Ok(stake) => r == Ok::<(), Error>(()) && final(env)@ == old(env)@.with_user_stake(
                    *market_id,
                    *user,
                    stake,
                ),
                Err(e) => r == Err::<(), Error>(e) && final(env)@ == old(env)@,
            },
            old(env)@.well_formed() ==> final(env)@.well_formed(),
    {
        let new_stake: i128 = Self::sum_user_stake(env, market_id, user, amount)?;
        Self::store_user_stake(env, market_id, user, new_stake);
        Ok(())
    }

    /// What a user will have staked on a market after a bet of `amount`, whatever
    /// the cap. Writes nothing.
    ///
    /// # Errors
    ///
    /// [`Error::Overflow`] when the sum does not fit.
    pub fn sum_user_stake(env: &Ledger, market_id: &Symbol, user: &Address, amount: i128) -> (r:
        Result<i128, Error>)
        ensures
            r == env@.stake_sum(*market_id, *user, amount),
    {
        let current_stake: i128 = Self::get_user_stake(env, market_id, user);
        match current_stake.checked_add(amount) {
            Some(total) => Ok(total),
            None => Err(Error::Overflow),
        }
    }

    /// What a user will have staked on a market after a bet of `amount`. Writes
    /// nothing.
    ///
    /// # Errors
    ///
    /// [`Error::Overflow`] when the sum does not fit,
    /// [`Error::MaxBetCapExceeded`] when it is above the cap.
    pub fn prepare_user_stake_update(
        env: &Ledger,
        market_id: &Symbol,
        user: &Address,
        amount: i128,
    ) -> (r: Result<i128, Error>)
        ensures
            r == env@.stake_after(*market_id, *user, amount),
    {
        let new_total: i128 = Self::sum_user_stake(env, market_id, user, amount)?;
        if let Some(cap) = Self::get_max_bet_cap(env) {
            if new_total > cap {
                return Err(Error::MaxBetCapExceeded);
            }
        }
        Ok(new_total)
    }

    /// Writes what a user has staked on a market.
    pub fn store_user_stake(env: &mut Ledger, market_id: &Symbol, user: &Address, new_stake: i128)
        ensures
            final(env)@ == old(env)@.with_user_stake(*market_id, *user, new_stake),
            old(env)@.well_formed() ==> final(env)@.well_formed(),
    {
        proof {
            if env@.well_formed() {
                crate::bookkeeping::lemma_same_books(env@, env@.with_user_stake(*market_id, *user, new_stake));
            }
        }
        let key = UserStakeKey { user: *user, market_id: *market_id };
        env.user_stakes.set(key, new_stake);
        let ledgers: u32 = env.context.market_ttl_ledgers;
        env.ask(Effect::ExtendTtl { entry: TtlEntry::UserStake { stake: key }, ledgers });
    }

    /// Refuses a bet that would take a user's stake on a market above the cap.
    ///
    /// # Errors
    ///
    /// As for [`BetValidator::prepare_user_stake_update`].
    pub fn validate_user_stake_under_cap(
        env: &Ledger,
        market_id: &Symbol,
        user: &Address,
        amount: i128,
    ) -> (r: Result<(), Error>)
        ensures
            match env@.stake_after(*market_id, *user, amount) {
                Ok(_) => r == Ok::<(), Error>(()),
                Err(e) => r == Err::<(), Error>(e),
            },
    {
        match Self::prepare_user_stake_update(env, market_id, user, amount) {
            Ok(_) => Ok(()),
            Err(e) => Err(e),
        }
    }
}

} // verus!
