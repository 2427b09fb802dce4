//! Questions about how the bets on a market are spread.
use vstd::prelude::*;

use crate::ledger::Ledger;
use crate::math::checked_mul_div;
use crate::storage::BetStorage;
use crate::types::{BetStats, BetStatsView, Outcome, Symbol};

verus! {

impl BetStatsView {
    /// The part of the locked amount that stands on `outcome`, in percent; zero
    /// where nothing is locked or the step does not fit.
    pub open spec fn implied_probability(self, outcome: Outcome) -> i128 {
        match crate::math::mul_div(
            self.outcome_total(outcome) as int,
            100,
            self.total_amount_locked as int,
        ) {
            Some(percent) => percent,
            None => 0,
        }
    }

    /// The locked amount as a multiple of what stands on `outcome`, in
    /// hundredths; zero where nothing stands on it or the step does not fit.
    pub open spec fn payout_multiplier(self, outcome: Outcome) -> i128 {
        match crate::math::mul_div(
            self.total_amount_locked as int,
            100,
            self.outcome_total(outcome) as int,
        ) {
            Some(multiple) => multiple,
            None => 0,
        }
    }
}

/// Read-only questions about betting data.
pub struct BetAnalytics;

impl BetAnalytics {
    /// The probability that the bets on a market imply for an outcome, in
    /// percent. Zero where nothing is locked on the market, and where a hundred
    /// times the amount on the outcome does not fit.
    pub fn calculate_implied_probability(env: &Ledger, market_id: &Symbol, outcome: &Outcome) -> (r:
        i128)
        ensures
            r == env@.market_stats(*market_id).implied_probability(*outcome),
    {
        let stats = BetStorage::get_market_bet_stats(env, market_id);
        if stats.total_amount_locked == 0 {
            return 0;
        }
        let outcome_amount: i128 = match stats.outcome_totals.get(outcome.id) {
            Some(amount) => amount,
            None => 0,
        };
        match checked_mul_div(outcome_amount, 100, stats.total_amount_locked) {
            Some(percent) => percent,
            None => 0,
        }
    }

    /// What a bet on an outcome could return, in hundredths of its amount (250
    /// is 2.5 times). Zero where nothing stands on the outcome, and where a
    /// hundred times the locked amount does not fit.
    pub fn calculate_payout_multiplier(env: &Ledger, market_id: &Symbol, outcome: &Outcome) -> (r:
        i128)
        ensures
            r == env@.market_stats(*market_id).payout_multiplier(*outcome),
    {
        let stats = BetStorage::get_market_bet_stats(env, market_id);
        let outcome_amount: i128 = match stats.outcome_totals.get(outcome.id) {
            Some(amount) => amount,
            None => 0,
        };
        if outcome_amount == 0 {
            return 0;
        }
        match checked_mul_div(stats.total_amount_locked, 100, outcome_amount) {
            Some(multiple) => multiple,
            None => 0,
        }
    }

    /// The betting statistics of a market.
    pub fn get_market_summary(env: &Ledger, market_id: &Symbol) -> (r: BetStats)
        ensures
            r@ == env@.market_stats(*market_id),
    {
        BetStorage::get_market_bet_stats(env, market_id)
    }
}

} // verus!
