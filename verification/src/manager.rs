//! The life of a bet: who may place one, what it leaves in the statistics, and
//! the fee it is placed under.
use vstd::prelude::*;

use crate::error::Error;
use crate::ledger::{Ledger, LedgerView};
use crate::math::saturating_sub;
use crate::storage::BetStorage;
use crate::types::{Address, Bet, BetStats, BetStatsView, BetStatus, Outcome, Symbol};
use crate::validator::{BetValidator, DEFAULT_PLATFORM_FEE_PERCENTAGE};

verus! {

impl BetStatsView {
    /// The statistics after a bet of `amount` on `outcome`, where every sum fits
    /// and there is room for the outcome.
    pub open spec fn after_bet(self, outcome: Outcome, amount: i128) -> Result<
        BetStatsView,
        Error,
    > {
        if self.total_bets == u32::MAX || self.unique_bettors == u32::MAX || !crate::math::fits(
            self.total_amount_locked + amount,
        ) || !crate::math::fits(self.outcome_total(outcome) + amount) {
            Err(Error::Overflow)
        } else if !crate::host::has_room(self.outcome_totals, outcome.id) {
            Err(Error::InvalidInput)
        } else {
            Ok(
                BetStatsView {
                    total_bets: (self.total_bets + 1) as u32,
                    total_amount_locked: (self.total_amount_locked + amount) as i128,
                    unique_bettors: (self.unique_bettors + 1) as u32,
                    outcome_totals: self.outcome_totals.insert(
                        outcome.id,
                        (self.outcome_total(outcome) + amount) as i128,
                    ),
                },
            )
        }
    }

    /// The statistics once a bet of `amount` on `outcome` has been cancelled. An
    /// outcome on which nothing is left is dropped; one that is not on record
    /// needs room where something is left on it.
    pub open spec fn after_cancel(self, outcome: Outcome, amount: i128) -> Result<
        BetStatsView,
        Error,
    > {
        let left = crate::math::clamp(self.outcome_total(outcome) - amount);
        if left > 0 && !crate::host::has_room(self.outcome_totals, outcome.id) {
            Err(Error::InvalidInput)
        } else {
            Ok(
                BetStatsView {
                    total_bets: less_one(self.total_bets),
                    total_amount_locked: crate::math::clamp(self.total_amount_locked - amount),
                    unique_bettors: less_one(self.unique_bettors),
                    outcome_totals: if left > 0 {
                        self.outcome_totals.insert(outcome.id, left)
                    } else {
                        self.outcome_totals.remove(outcome.id)
                    },
                },
            )
        }
    }
}

/// One less than `n`, but not below zero.
pub open spec fn less_one(n: u32) -> u32 {
    if n == 0 {
        0
    } else {
        (n - 1) as u32
    }
}

impl LedgerView {
    /// The platform fee in force, in basis points: that of the runtime
    /// configuration, else that of the fee configuration, either of which may
    /// switch fees off, else the one under the legacy key, else the default.
    pub open spec fn live_fee(self) -> i128 {
        match self.context.config {
            Some(config) => if config.fees_enabled {
                config.platform_fee_percentage
            } else {
                0
            },
            None => match self.context.fee_config {
                Some(config) => if config.fees_enabled {
                    config.platform_fee_percentage
                } else {
                    0
                },
                None => match self.context.platform_fee {
                    Some(fee) => fee,
                    None => DEFAULT_PLATFORM_FEE_PERCENTAGE,
                },
            },
        }
    }

    /// Whether the fee in force is at most what the caller accepts. A caller who
    /// gives no positive bound accepts any fee.
    pub open spec fn fee_check(self, max_fee_bps: i128) -> Result<(), Error> {
        if max_fee_bps > 0 && self.live_fee() > max_fee_bps {
            Err(Error::FeeExceedsMax)
        } else {
            Ok(())
        }
    }

    /// Whether `user` may bet `amount` on `outcome` of `market_id`: the market
    /// takes bets, has the outcome and takes the amount, and the user has no bet
    /// on it but perhaps a cancelled one.
    pub open spec fn admission(
        self,
        user: Address,
        market_id: Symbol,
        outcome: Outcome,
        amount: i128,
    ) -> Result<(), Error> {
        let market = self.markets[market_id];
        let earlier = self.bet(market_id, user);
        if !self.markets.contains_key(market_id) {
            Err(Error::MarketNotFound)
        } else if market.betting_check(self.context.timestamp) is Err {
            market.betting_check(self.context.timestamp)
        } else if self.parameters_check(market_id, outcome, market.outcomes, amount) is Err {
            self.parameters_check(market_id, outcome, market.outcomes, amount)
        } else if earlier is Some && earlier->0.status != BetStatus::Cancelled {
            Err(Error::AlreadyBet)
        } else {
            Ok(())
        }
    }

    /// The bet that `user` makes now.
    pub open spec fn new_bet(
        self,
        user: Address,
        market_id: Symbol,
        outcome: Outcome,
        amount: i128,
    ) -> Bet {
        Bet {
            user,
            market_id,
            outcome,
            amount,
            timestamp: self.context.timestamp,
            status: BetStatus::Active,
        }
    }
}

/// The operations on bets.
pub struct BetManager;

impl BetManager {
    /// The platform fee in force, in basis points (200 is 2%).
    pub fn get_live_fee_percentage(env: &Ledger) -> (r: Result<i128, Error>)
        ensures
            r == Ok::<i128, Error>(env@.live_fee()),
    {
        if let Some(config) = env.context.config {
            if !config.fees_enabled {
                return Ok(0);
            }
            return Ok(config.platform_fee_percentage);
        }
        if let Some(config) = env.context.fee_config {
            if !config.fees_enabled {
                return Ok(0);
            }
            return Ok(config.platform_fee_percentage);
        }
        if let Some(legacy_fee) = env.context.platform_fee {
            return Ok(legacy_fee);
        }
        Ok(DEFAULT_PLATFORM_FEE_PERCENTAGE)
    }

    /// Refuses a fee above what the caller accepts; zero accepts any fee.
    pub fn check_fee(env: &Ledger, max_fee_bps: i128) -> (r: Result<(), Error>)
        ensures
            r == env@.fee_check(max_fee_bps),
    {
        if max_fee_bps > 0 {
            let actual_fee: i128 = Self::get_live_fee_percentage(env)?;
            if actual_fee > max_fee_bps {
                return Err(Error::FeeExceedsMax);
            }
        }
        Ok(())
    }

    /// Refuses a bet that may not be made. Writes nothing.
    pub fn check_admission(
        env: &Ledger,
        user: &Address,
        market_id: &Symbol,
        outcome: &Outcome,
        amount: i128,
    ) -> (r: Result<(), Error>)
        ensures
            r == env@.admission(*user, *market_id, *outcome, amount),
    {
        let market = env.market(market_id)?;
        BetValidator::validate_market_for_betting(env, market)?;
        BetValidator::validate_bet_parameters(env, market_id, outcome, &market.outcomes, amount)?;
        if let Some(existing_bet) = Self::get_bet(env, market_id, user) {
            if existing_bet.status != BetStatus::Cancelled {
                return Err(Error::AlreadyBet);
            }
        }
        Ok(())
    }

    /// Whether a user has a bet on a market, of whatever status.
    pub fn has_user_bet(env: &Ledger, market_id: &Symbol, user: &Address) -> (r: bool)
        ensures
            r == (env@.bet(*market_id, *user) is Some),
    {
        BetStorage::get_bet(env, market_id, user).is_some()
    }

    /// The bet of a user on a market, if there is one.
    pub fn get_bet(env: &Ledger, market_id: &Symbol, user: &Address) -> (r: Option<Bet>)
        ensures
            r == env@.bet(*market_id, *user),
    {
        BetStorage::get_bet(env, market_id, user)
    }

    /// The betting statistics of a market.
    pub fn get_market_bet_stats(env: &Ledger, market_id: &Symbol) -> (r: BetStats)
        ensures
            r@ == env@.market_stats(*market_id),
    {
        BetStorage::get_market_bet_stats(env, market_id)
    }

    /// The statistics of a market after one more bet. Writes nothing, so that a
    /// sum that does not fit is found before funds move.
    ///
    /// # Errors
    ///
    /// [`Error::Overflow`] when a sum does not fit, [`Error::InvalidInput`] when
    /// there is no room for one more outcome.
    pub fn prepare_market_bet_stats(
        env: &Ledger,
        market_id: &Symbol,
        outcome: &Outcome,
        amount: i128,
    ) -> (r: Result<BetStats, Error>)
        ensures
            match env@.market_stats(*market_id).after_bet(*outcome, amount) {
                Ok(next) => r matches Ok(stats) && stats@ == next,
                Err(e) => r matches Err(x) && x == e,
            },
    {
        let stats = BetStorage::get_market_bet_stats(env, market_id);
        let total_bets: u32 = match stats.total_bets.checked_add(1) {
            Some(n) => n,
            None => {
                return Err(Error::Overflow);
            },
        };
        let total_amount_locked: i128 = match stats.total_amount_locked.checked_add(amount) {
            Some(n) => n,
            None => {
                return Err(Error::Overflow);
            },
        };
        let unique_bettors: u32 = match stats.unique_bettors.checked_add(1) {
            Some(n) => n,
            None => {
                return Err(Error::Overflow);
            },
        };
        let current_outcome_total: i128 = match stats.outcome_totals.get(outcome.id) {
            Some(n) => n,
            None => 0,
        };
        let new_outcome_total: i128 = match current_outcome_total.checked_add(amount) {
            Some(n) => n,
            None => {
                return Err(Error::Overflow);
            },
        };
        let outcome_totals = match stats.outcome_totals.with(outcome.id, new_outcome_total) {
            Some(totals) => totals,
            None => {
                return Err(Error::InvalidInput);
            },
        };
        Ok(BetStats { total_bets, total_amount_locked, unique_bettors, outcome_totals })
    }

    /// Counts one more bet in the statistics of a market.
    ///
    /// # Errors
    ///
    /// [`Error::Overflow`] when a sum does not fit, [`Error::InvalidInput`] when
    /// there is no room for one more outcome.
    pub fn update_market_bet_stats(
        env: &mut Ledger,
        market_id: &Symbol,
        outcome: &Outcome,
        amount: i128,
    ) -> (r: Result<(), Error>)
        ensures
            match old(env)@.market_stats(*market_id).after_bet(*outcome, amount) {
                Ok(next) => r == Ok::<(), Error>(()) && final(env)@ == old(env)@.with_stats(
                    *market_id,
                    next,
                ),
                Err(e) => r == Err::<(), Error>(e) && final(env)@ == old(env)@,
            },
            old(env)@.well_formed() ==> final(env)@.well_formed(),
    {
        let stats = Self::prepare_market_bet_stats(env, market_id, outcome, amount)?;
        BetStorage::store_market_bet_stats(env, market_id, &stats)
    }

    /// The statistics of a market without a cancelled bet. Writes nothing.
    ///
    /// # Errors
    ///
    /// [`Error::InvalidInput`] when something is left on an outcome that is not on
    /// record and there is no room for it.
    pub fn prepare_market_bet_stats_on_cancel(
        env: &Ledger,
        market_id: &Symbol,
        outcome: &Outcome,
        amount: i128,
    ) -> (r: Result<BetStats, Error>)
        ensures
            match env@.market_stats(*market_id).after_cancel(*outcome, amount) {
                Ok(next) => r matches Ok(stats) && stats@ == next,
                Err(e) => r matches Err(x) && x == e,
            },
    {
        let stats = BetStorage::get_market_bet_stats(env, market_id);
        let total_bets: u32 = stats.total_bets.saturating_sub(1);
        let total_amount_locked: i128 = saturating_sub(stats.total_amount_locked, amount);
        let unique_bettors: u32 = stats.unique_bettors.saturating_sub(1);
        let current_outcome_total: i128 = match stats.outcome_totals.get(outcome.id) {
            Some(n) => n,
            None => 0,
        };
        let new_total: i128 = saturating_sub(current_outcome_total, amount);
        let outcome_totals = if new_total > 0 {
            match stats.outcome_totals.with(outcome.id, new_total) {
                Some(totals) => totals,
                None => {
                    return Err(Error::InvalidInput);
                },
            }
        } else {
            stats.outcome_totals.without(outcome.id)
        };
        Ok(BetStats { total_bets, total_amount_locked, unique_bettors, outcome_totals })
    }

    /// Takes a cancelled bet out of the statistics of a market.
    ///
    /// # Errors
    ///
    /// As for [`BetManager::prepare_market_bet_stats_on_cancel`].
    pub fn update_market_bet_stats_on_cancel(
        env: &mut Ledger,
        market_id: &Symbol,
        outcome: &Outcome,
        amount: i128,
    ) -> (r: Result<(), Error>)
        ensures
            match old(env)@.market_stats(*market_id).after_cancel(*outcome, amount) {
                Ok(next) => r == Ok::<(), Error>(()) && final(env)@ == old(env)@.with_stats(
                    *market_id,
                    next,
                ),
                Err(e) => r == Err::<(), Error>(e) && final(env)@ == old(env)@,
            },
            old(env)@.well_formed() ==> final(env)@.well_formed(),
    {
        let stats = Self::prepare_market_bet_stats_on_cancel(env, market_id, outcome, amount)?;
        BetStorage::store_market_bet_stats(env, market_id, &stats)
    }
}

} // verus!
