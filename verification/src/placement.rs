//! Placing a single bet.
use vstd::prelude::*;

use crate::error::Error;
use crate::funds::BetUtils;
use crate::ledger::{Effect, Event, GuardScope, Ledger, LedgerView, TtlEntry};
use crate::manager::BetManager;
use crate::storage::BetStorage;
use crate::types::{Address, Bet, BetRegistryKey, BetStatsView, Outcome, Symbol};
use crate::validator::BetValidator;

verus! {

/// How many bets a ledger still takes after `n` more.
pub open spec fn fewer_left(bets_left: Option<u32>, n: int) -> Option<u32> {
    match bets_left {
        Some(left) => Some((left - n) as u32),
        None => None,
    }
}

impl LedgerView {
    /// The ledger after `user` has placed a bet, given what the bet leaves of
    /// balances, bettors, stake, statistics and the total staked on the market.
    pub open spec fn after_placing(
        self,
        bet: Bet,
        balances: Map<Address, i128>,
        registries: Map<BetRegistryKey, Seq<u64>>,
        stake: i128,
        stats: BetStatsView,
        total: i128,
    ) -> LedgerView {
        let stake_key = crate::ledger::stake_key(bet.market_id, bet.user);
        LedgerView {
            bets_left: fewer_left(self.bets_left, 1),
            balances,
            bets: self.bets.insert(bet.key(), bet),
            registries,
            user_stakes: self.user_stakes.insert(stake_key, stake),
            stats: self.stats.insert(crate::ledger::stats_key(bet.market_id), stats),
            markets: self.markets.insert(
                bet.market_id,
                self.markets[bet.market_id].staked(bet.user, bet.outcome, bet.amount, total),
            ),
            effects: self.effects + seq![
                Effect::RequireAuth { address: bet.user },
                Effect::Transfer {
                    from: bet.user,
                    to: self.context.contract,
                    amount: bet.amount,
                },
                Effect::ExtendTtl {
                    entry: TtlEntry::UserStake { stake: stake_key },
                    ledgers: self.context.market_ttl_ledgers,
                },
                Effect::Publish {
                    event: Event::BetPlaced {
                        market_id: bet.market_id,
                        user: bet.user,
                        outcome: bet.outcome,
                        amount: bet.amount,
                    },
                },
            ],
            ..self
        }
    }

    /// Whether a call of `place_bet` gets as far as preparing the bet.
    pub open spec fn placing_check(
        self,
        user: Address,
        market_id: Symbol,
        outcome: Outcome,
        amount: i128,
        max_fee_bps: i128,
    ) -> Result<(), Error> {
        if self.context.locks.held(GuardScope::PlaceBet) {
            Err(Error::InvalidState)
        } else if self.context.betting_paused {
            Err(Error::CircuitBreakerOpen)
        } else if self.bets_left == Some(0u32) {
            Err(Error::RateLimitExceeded)
        } else if self.fee_check(max_fee_bps) is Err {
            self.fee_check(max_fee_bps)
        } else {
            self.admission(user, market_id, outcome, amount)
        }
    }

    /// The ledger after a call of `place_bet`, or the error that it gives.
    pub open spec fn placing(
        self,
        user: Address,
        market_id: Symbol,
        outcome: Outcome,
        amount: i128,
        max_fee_bps: i128,
    ) -> Result<LedgerView, Error> {
        let check = self.placing_check(user, market_id, outcome, amount, max_fee_bps);
        let stake = self.stake_after(market_id, user, amount);
        let stats = self.market_stats(market_id).after_bet(outcome, amount);
        let total = self.markets[market_id].total_staked + amount;
        let balances = self.locking(user, amount);
        let registries = self.registries_with(market_id, user);
        if check is Err {
            Err(check->Err_0)
        } else if stake is Err {
            Err(stake->Err_0)
        } else if stats is Err {
            Err(stats->Err_0)
        } else if !crate::math::fits(total) {
            Err(Error::Overflow)
        } else if !self.markets[market_id].takes(user) {
            Err(Error::InvalidInput)
        } else if balances is Err {
            Err(balances->Err_0)
        } else if registries is Err {
            Err(registries->Err_0)
        } else {
            Ok(
                self.after_placing(
                    self.new_bet(user, market_id, outcome, amount),
                    balances->Ok_0,
                    registries->Ok_0,
                    stake->Ok_0,
                    stats->Ok_0,
                    total as i128,
                ),
            )
        }
    }
}

impl BetManager {
    /// Places a bet and locks its amount.
    ///
    /// Every check and every sum comes before the first write, so that a call
    /// that fails leaves the ledger as it was.
    ///
    /// # Errors
    ///
    /// In this order: [`Error::InvalidState`] when a bet is being placed already,
    /// [`Error::CircuitBreakerOpen`] when betting is paused,
    /// [`Error::RateLimitExceeded`] when this ledger takes no more bets,
    /// [`Error::FeeExceedsMax`] when the fee is above a positive `max_fee_bps`,
    /// [`Error::MarketNotFound`], the errors of
    /// [`BetValidator::validate_market_for_betting`] and
    /// [`BetValidator::validate_bet_parameters`], [`Error::AlreadyBet`] when the
    /// user has a bet on the market that is not cancelled, the errors of
    /// [`BetValidator::prepare_user_stake_update`] and
    /// [`BetManager::prepare_market_bet_stats`], [`Error::Overflow`] when the total
    /// staked does not fit, [`Error::InvalidInput`] when the market has no room for
    /// one more stake, the errors of [`BetUtils::lock_funds`] and those of
    /// [`BetStorage::store_bet`].
    pub fn place_bet(
        env: &mut Ledger,
        user: Address,
        market_id: Symbol,
        outcome: Outcome,
        amount: i128,
        max_fee_bps: i128,
    ) -> (r: Result<Bet, Error>)
        ensures
            match old(env)@.placing(user, market_id, outcome, amount, max_fee_bps) {
                Ok(next) => {
                    &&& r == Ok::<Bet, Error>(
                        old(env)@.new_bet(user, market_id, outcome, amount),
                    )
                    &&& final(env)@ == next
                },
                Err(e) => r == Err::<Bet, Error>(e) && final(env)@ == old(env)@,
            },
            old(env)@.well_formed() ==> final(env)@.well_formed(),
    {
        proof {
            if env@.well_formed() && env@.placing(user, market_id, outcome, amount, max_fee_bps) is Ok {
                crate::bookkeeping::law_placing_keeps_books(env@, user, market_id, outcome, amount, max_fee_bps);
            }
        }
        env.context.locks.enter(GuardScope::PlaceBet)?;
        Self::place_bet_inner(env, user, market_id, outcome, amount, max_fee_bps)
    }

    fn place_bet_inner(
        env: &mut Ledger,
        user: Address,
        market_id: Symbol,
        outcome: Outcome,
        amount: i128,
        max_fee_bps: i128,
    ) -> (r: Result<Bet, Error>)
        requires
            !old(env)@.context.locks.held(GuardScope::PlaceBet),
        ensures
            match old(env)@.placing(user, market_id, outcome, amount, max_fee_bps) {
                Ok(next) => {
                    &&& r == Ok::<Bet, Error>(
                        old(env)@.new_bet(user, market_id, outcome, amount),
                    )
                    &&& final(env)@ == next
                },
                Err(e) => r == Err::<Bet, Error>(e) && final(env)@ == old(env)@,
            },
    {
        if env.context.betting_paused {
            return Err(Error::CircuitBreakerOpen);
        }
        let bets_left = match env.bets_left {
            Some(left) => {
                if left == 0 {
                    return Err(Error::RateLimitExceeded);
                }
                Some(left - 1)
            },
            None => None,
        };
        Self::check_fee(env, max_fee_bps)?;
        Self::check_admission(env, &user, &market_id, &outcome, amount)?;

        let stake: i128 = BetValidator::prepare_user_stake_update(env, &market_id, &user, amount)?;
        let stats = Self::prepare_market_bet_stats(env, &market_id, &outcome, amount)?;
        let market = env.market(&market_id)?;
        let total: i128 = match market.total_staked.checked_add(amount) {
            Some(total) => total,
            None => {
                return Err(Error::Overflow);
            },
        };
        let market = match market.staked(user, outcome, amount, total) {
            Some(market) => market,
            None => {
                return Err(Error::InvalidInput);
            },
        };
        let bet = Bet::new(user, market_id, outcome, amount, env.context.timestamp);
        BetUtils::check_lock(env, &user, amount)?;
        BetStorage::check_store(env, &market_id, &user)?;

        // Nothing fails from here on.
        env.bets_left = bets_left;
        env.ask(Effect::RequireAuth { address: user });
        BetUtils::lock_funds(env, &user, amount)?;
        BetStorage::store_bet(env, &bet)?;
        BetValidator::store_user_stake(env, &market_id, &user, stake);
        BetStorage::store_market_bet_stats(env, &market_id, &stats)?;
        env.put_market(market_id, market);
        env.ask(
            Effect::Publish { event: Event::BetPlaced { market_id, user, outcome, amount } },
        );
        proof {
            assert(env@ =~= old(env)@.placing(
                user,
                market_id,
                outcome,
                amount,
                max_fee_bps,
            )->Ok_0);
        }
        Ok(bet)
    }
}

} // verus!
