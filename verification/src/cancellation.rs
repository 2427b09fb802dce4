//! Cancelling a bet before its market ends.
use vstd::prelude::*;

use crate::error::Error;
use crate::funds::BetUtils;
use crate::ledger::{Effect, Event, Ledger, LedgerView};
use crate::manager::BetManager;
use crate::storage::BetStorage;
use crate::types::{Address, Bet, BetRegistryKey, BetStatsView, BetStatus, Symbol};

verus! {

/// The event of a bet that went from active to `new_status` with its amount
/// paid back.
pub open spec fn paid_back(
    market_id: Symbol,
    user: Address,
    new_status: BetStatus,
    amount: i128,
) -> Event {
    Event::BetStatusUpdated {
        market_id,
        user,
        old_status: BetStatus::Active,
        new_status,
        payout: Some(amount),
    }
}

impl LedgerView {
    /// Whether `user` may cancel their bet on `market_id`.
    pub open spec fn cancel_check(self, user: Address, market_id: Symbol) -> Result<(), Error> {
        if self.context.cancelling_paused {
            Err(Error::CircuitBreakerOpen)
        } else if self.bet(market_id, user) is None {
            Err(Error::NothingToClaim)
        } else if self.bet(market_id, user)->0.status != BetStatus::Active {
            Err(Error::InvalidState)
        } else if !self.markets.contains_key(market_id) {
            Err(Error::MarketNotFound)
        } else if self.context.timestamp >= self.markets[market_id].end_time {
            Err(Error::MarketClosed)
        } else {
            Ok(())
        }
    }

    /// The ledger once `user` has cancelled `bet` on `market_id`, given what that
    /// leaves of balances, bettors and statistics.
    pub open spec fn after_cancelling(
        self,
        user: Address,
        market_id: Symbol,
        bet: Bet,
        balances: Map<Address, i128>,
        registries: Map<BetRegistryKey, Seq<u64>>,
        stats: BetStatsView,
    ) -> LedgerView {
        LedgerView {
            balances,
            bets: self.bets.insert(bet.key(), bet.with_status(BetStatus::Cancelled)),
            registries,
            stats: self.stats.insert(crate::ledger::stats_key(market_id), stats),
            markets: self.markets.insert(
                market_id,
                self.markets[market_id].unstaked(user, bet.amount),
            ),
            effects: self.effects + seq![
                Effect::RequireAuth { address: user },
                Effect::Transfer { from: self.context.contract, to: user, amount: bet.amount },
                Effect::Publish {
                    event: paid_back(market_id, user, BetStatus::Cancelled, bet.amount),
                },
            ],
            ..self
        }
    }

    /// The ledger after a call of `cancel_bet`, or the error that it gives.
    pub open spec fn cancelling(self, user: Address, market_id: Symbol) -> Result<
        LedgerView,
        Error,
    > {
        let check = self.cancel_check(user, market_id);
        let bet = self.bet(market_id, user)->0;
        let balances = self.unlocking(user, bet.amount);
        let registries = self.registries_with(bet.market_id, bet.user);
        let stats = self.market_stats(market_id).after_cancel(bet.outcome, bet.amount);
        if check is Err {
            Err(check->Err_0)
        } else if balances is Err {
            Err(balances->Err_0)
        } else if registries is Err {
            Err(registries->Err_0)
        } else if stats is Err {
            Err(stats->Err_0)
        } else {
            Ok(
                self.after_cancelling(
                    user,
                    market_id,
                    bet,
                    balances->Ok_0,
                    registries->Ok_0,
                    stats->Ok_0,
                ),
            )
        }
    }
}

impl BetManager {
    /// Cancels a user's active bet before the end of the market and pays its
    /// amount back.
    ///
    /// # Errors
    ///
    /// In this order: [`Error::CircuitBreakerOpen`] when cancelling is paused,
    /// [`Error::NothingToClaim`] when the user has no bet on the market,
    /// [`Error::InvalidState`] when the bet is not active,
    /// [`Error::MarketNotFound`], [`Error::MarketClosed`] when the market has
    /// ended, the errors of [`BetUtils::unlock_funds`], those of
    /// [`BetStorage::store_bet`] and those of
    /// [`BetManager::prepare_market_bet_stats_on_cancel`].
    pub fn cancel_bet(env: &mut Ledger, user: Address, market_id: Symbol) -> (r: Result<(), Error>)
        ensures
            match old(env)@.cancelling(user, market_id) {
                Ok(next) => r == Ok::<(), Error>(()) && final(env)@ == next,
                Err(e) => r == Err::<(), Error>(e) && final(env)@ == old(env)@,
            },
            old(env)@.well_formed() ==> final(env)@.well_formed(),
    {
        proof {
            if env@.well_formed() && env@.cancelling(user, market_id) is Ok {
                crate::bookkeeping::law_cancelling_keeps_books(env@, user, market_id);
            }
        }
        if env.context.cancelling_paused {
            return Err(Error::CircuitBreakerOpen);
        }
        let mut bet = match BetStorage::get_bet(env, &market_id, &user) {
            Some(bet) => bet,
            None => {
                return Err(Error::NothingToClaim);
            },
        };
        if !bet.is_active() {
            return Err(Error::InvalidState);
        }
        let market = env.market(&market_id)?;
        if env.context.timestamp >= market.end_time {
            return Err(Error::MarketClosed);
        }
        let market = market.unstaked(user, bet.amount);
        BetUtils::check_unlock(env, &user, bet.amount)?;
        BetStorage::check_store(env, &bet.market_id, &bet.user)?;
        let stats = Self::prepare_market_bet_stats_on_cancel(
            env,
            &market_id,
            &bet.outcome,
            bet.amount,
        )?;

        // Nothing fails from here on.
        env.ask(Effect::RequireAuth { address: user });
        BetUtils::unlock_funds(env, &user, bet.amount)?;
        bet.status = BetStatus::Cancelled;
        BetStorage::store_bet(env, &bet)?;
        BetStorage::store_market_bet_stats(env, &market_id, &stats)?;
        env.put_market(market_id, market);
        env.ask(
            Effect::Publish {
                event: Event::BetStatusUpdated {
                    market_id,
                    user,
                    old_status: BetStatus::Active,
                    new_status: BetStatus::Cancelled,
                    payout: Some(bet.amount),
                },
            },
        );
        proof {
            assert(env@ =~= old(env)@.cancelling(user, market_id)->Ok_0);
        }
        Ok(())
    }
}

} // verus!
