//! Where bets, bettors and statistics are kept.
use vstd::prelude::*;

use crate::error::Error;
use crate::host::IdList;
use crate::ledger::{Ledger, LedgerView};
use crate::types::{
    Address, Bet, BetRegistryKey, BetStats, BetStatsView, MarketBetsKey, Symbol,
};

verus! {

impl LedgerView {
    /// The lists of bettors once `user` is among those of `market_id`. A bettor
    /// who is listed stays where they are; a list that is full takes no more.
    pub open spec fn registries_with(self, market_id: Symbol, user: Address) -> Result<
        Map<BetRegistryKey, Seq<u64>>,
        Error,
    > {
        crate::books::enlisted(self.registries, market_id, user)
    }

    /// The ledger once `bet` is stored.
    pub open spec fn with_bet(self, bet: Bet) -> Result<LedgerView, Error> {
        match self.registries_with(bet.market_id, bet.user) {
            Ok(registries) => Ok(
                LedgerView { bets: self.bets.insert(bet.key(), bet), registries, ..self },
            ),
            Err(e) => Err(e),
        }
    }

    /// The ledger once `user` has no bet on `market_id`.
    pub open spec fn without_bet(self, market_id: Symbol, user: Address) -> LedgerView {
        LedgerView { bets: self.bets.remove(crate::ledger::bet_key(market_id, user)), ..self }
    }

    /// The ledger once the statistics of `market_id` are `stats`.
    pub open spec fn with_stats(self, market_id: Symbol, stats: BetStatsView) -> LedgerView {
        LedgerView {
            stats: self.stats.insert(crate::ledger::stats_key(market_id), stats),
            ..self
        }
    }
}

/// The entries of the ledger that betting owns.
pub struct BetStorage;

impl BetStorage {
    /// Stores a bet under its market and user, and lists the user among the
    /// bettors of the market.
    ///
    /// # Errors
    ///
    /// [`Error::InvalidInput`] when the list of bettors can take no more.
    pub fn store_bet(env: &mut Ledger, bet: &Bet) -> (r: Result<(), Error>)
        ensures
            match old(env)@.with_bet(*bet) {
                Ok(next) => r == Ok::<(), Error>(()) && final(env)@ == next,
                Err(e) => r == Err::<(), Error>(e) && final(env)@ == old(env)@,
            },
            old(env)@.well_formed() ==> final(env)@.well_formed(),
    {
        proof {
            if env@.well_formed() && env@.with_bet(*bet) is Ok {
                crate::bookkeeping::law_storing_keeps_books(env@, *bet);
            }
        }
        env.books.file(&env.host, bet)
    }

    /// Whether [`BetStorage::store_bet`] would succeed for a bet of `user` on
    /// `market_id`, and the error where it would not. Writes nothing.
    pub fn check_store(env: &Ledger, market_id: &Symbol, user: &Address) -> (r: Result<(), Error>)
        ensures
            match env@.registries_with(*market_id, *user) {
                Ok(_) => r == Ok::<(), Error>(()),
                Err(e) => r == Err::<(), Error>(e),
            },
    {
        let bettors = Self::get_all_bets_for_market(env, market_id);
        if bettors.contains(user.id) || bettors.len() < u32::MAX {
            Ok(())
        } else {
            Err(Error::InvalidInput)
        }
    }

    /// The bet of a user on a market, if there is one.
    pub fn get_bet(env: &Ledger, market_id: &Symbol, user: &Address) -> (r: Option<Bet>)
        ensures
            r == env@.bet(*market_id, *user),
    {
        env.books.bet(market_id, user)
    }

    /// Strikes the bet of a user on a market.
    pub fn remove_bet(env: &mut Ledger, market_id: &Symbol, user: &Address)
        ensures
            final(env)@ == old(env)@.without_bet(*market_id, *user),
            old(env)@.well_formed() ==> final(env)@.well_formed(),
    {
        proof {
            if env@.well_formed() {
                crate::bookkeeping::law_striking_keeps_books(env@, *market_id, *user);
            }
        }
        env.books.strike(market_id, user);
    }

    /// The betting statistics of a market; all zero where nothing was bet.
    pub fn get_market_bet_stats(env: &Ledger, market_id: &Symbol) -> (r: BetStats)
        ensures
            r@ == env@.market_stats(*market_id),
    {
        let key = Self::get_bet_stats_key(market_id);
        match env.stats.get(&key) {
            Some(stats) => stats.copy(),
            None => BetStats::empty(&env.host),
        }
    }

    /// Writes the betting statistics of a market.
    pub fn store_market_bet_stats(env: &mut Ledger, market_id: &Symbol, stats: &BetStats) -> (r:
        Result<(), Error>)
        ensures
            r == Ok::<(), Error>(()),
            final(env)@ == old(env)@.with_stats(*market_id, stats@),
            old(env)@.well_formed() ==> final(env)@.well_formed(),
    {
        env.put_stats(*market_id, stats.copy());
        Ok(())
    }

    /// The bettors of a market, in the order of their first bets.
    pub fn get_all_bets_for_market(env: &Ledger, market_id: &Symbol) -> (r: IdList)
        ensures
            r@ == env@.registry(*market_id),
            env@.books_in_order(),
    {
        env.books.bettors(&env.host, market_id)
    }

    fn get_bet_stats_key(market_id: &Symbol) -> (k: MarketBetsKey)
        ensures
            k == crate::ledger::stats_key(*market_id),
    {
        MarketBetsKey { market_id: *market_id }
    }
}

} // verus!
