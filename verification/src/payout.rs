//! What a winning bet pays.
use vstd::prelude::*;

use crate::error::Error;
use crate::host::IdList;
use crate::ledger::{Ledger, LedgerView};
use crate::manager::BetManager;
use crate::math::checked_div;
use crate::storage::BetStorage;
use crate::types::{Address, BetStats, BetStatsView, BetStatus, Outcome, Symbol};

verus! {

/// What the winners share: the pool less the fee of `fee_percentage` basis
/// points.
pub open spec fn distributable(pool: int, fee_percentage: int) -> int {
    pool - crate::math::trunc_div(pool * fee_percentage, 10_000)
}

/// The part of `share` that falls to `amount` out of `total`.
pub open spec fn portion(amount: int, share: int, total: int) -> int {
    crate::math::trunc_div(amount * share, total)
}

/// The payout of a bet of `amount` out of `total` on all winning outcomes, where
/// every step fits.
pub open spec fn payout_amount(
    amount: int,
    pool: int,
    fee_percentage: int,
    total: int,
) -> Option<i128> {
    let share = distributable(pool, fee_percentage);
    if crate::math::fits(pool * fee_percentage) && crate::math::fits(share) && crate::math::fits(
        amount * share,
    ) && crate::math::fits(portion(amount, share, total)) {
        Some(portion(amount, share, total) as i128)
    } else {
        None
    }
}

/// What stands on the first `n` of `winners`, an outcome that is named twice
/// being counted once; `None` where a sum on the way does not fit.
pub open spec fn winning_total(stats: BetStatsView, winners: Seq<u64>, n: int) -> Option<i128>
    decreases n,
{
    if n <= 0 {
        Some(0)
    } else {
        match winning_total(stats, winners, n - 1) {
            Some(so_far) => {
                let sum = so_far + stats.outcome_total(Outcome { id: winners[n - 1] });
                if winners.take(n - 1).contains(winners[n - 1]) {
                    Some(so_far)
                } else if crate::math::fits(sum) {
                    Some(sum as i128)
                } else {
                    None
                }
            },
            None => None,
        }
    }
}

impl LedgerView {
    /// What stands on the winning outcomes of `market_id`.
    pub open spec fn winning_total(self, market_id: Symbol) -> Option<i128> {
        let winners = self.markets[market_id].winning_outcomes->0;
        winning_total(self.market_stats(market_id), winners, winners.len() as int)
    }

    /// What the bet of `user` on `market_id` pays, at a fee of `fee_percentage`
    /// basis points.
    pub open spec fn payout(self, market_id: Symbol, user: Address, fee_percentage: i128) -> Result<
        i128,
        Error,
    > {
        let bet = self.bet(market_id, user)->0;
        let summary = self.resolutions[market_id];
        let total = self.winning_total(market_id);
        let amount = payout_amount(
            bet.amount as int,
            summary.total_pool as int,
            fee_percentage as int,
            total->0 as int,
        );
        if self.bet(market_id, user) is None {
            Err(Error::NothingToClaim)
        } else if bet.status != BetStatus::Won {
            Ok(0)
        } else if !self.markets.contains_key(market_id) {
            Err(Error::MarketNotFound)
        } else if self.markets[market_id].winning_outcomes is None {
            Err(Error::MarketNotResolved)
        } else if !self.resolutions.contains_key(market_id) {
            Err(Error::MarketNotResolved)
        } else if summary.num_winning_outcomes == 0 || self.market_stats(market_id).outcome_total(
            bet.outcome,
        ) == 0 {
            Ok(0)
        } else if total is None {
            Err(Error::InvalidInput)
        } else if total->0 == 0 {
            Ok(0)
        } else if amount is None {
            Err(Error::InvalidInput)
        } else {
            Ok(amount->0)
        }
    }
}

/// Rounding toward zero does not take a quotient by a number above one away
/// from zero.
proof fn lemma_trunc_div_fits(x: int, d: int)
    requires
        crate::math::fits(x),
        d > 0,
    ensures
        crate::math::fits(crate::math::trunc_div(x, d)),
{
    let a = crate::math::abs(x);
    assert(0 <= a / d <= a) by (nonlinear_arith)
        requires
            a >= 0,
            d > 0,
    ;
}

/// The payout of a bet of `amount`, with every step checked.
fn compute_payout(amount: i128, pool: i128, fee_percentage: i128, total: i128) -> (r: Option<i128>)
    requires
        total != 0,
    ensures
        r == payout_amount(amount as int, pool as int, fee_percentage as int, total as int),
{
    let scaled: i128 = match pool.checked_mul(fee_percentage) {
        Some(n) => n,
        None => {
            return None;
        },
    };
    proof {
        lemma_trunc_div_fits(scaled as int, 10_000);
    }
    let fee: i128 = match checked_div(scaled, 10_000) {
        Some(n) => n,
        None => {
            return None;
        },
    };
    let share: i128 = match pool.checked_sub(fee) {
        Some(n) => n,
        None => {
            return None;
        },
    };
    match amount.checked_mul(share) {
        Some(product) => checked_div(product, total),
        None => None,
    }
}

/// Whether `id` is in a list before position `i`.
fn occurs_before(list: &IdList, i: u32, id: u64) -> (r: bool)
    requires
        i < list@.len(),
    ensures
        r == list@.take(i as int).contains(id),
{
    let ghost earlier = list@.take(i as int);
    let mut j: u32 = 0;
    while j < i
        invariant
            j <= i < list@.len(),
            earlier == list@.take(i as int),
            forall|k: int| 0 <= k < j ==> #[trigger] earlier[k] != id,
        decreases i - j,
    {
        if let Some(other) = list.get(j) {
            if other == id {
                proof {
                    assert(earlier[j as int] == id);
                }
                return true;
            }
        }
        j = j + 1;
    }
    false
}

/// What stands on the outcomes `winners`, each counted once, with every sum
/// checked.
fn sum_winning(stats: &BetStats, winners: &IdList) -> (r: Option<i128>)
    ensures
        r == winning_total(stats@, winners@, winners@.len() as int),
{
    let mut total: i128 = 0;
    let count: u32 = winners.len();
    let mut i: u32 = 0;
    while i < count
        invariant
            i <= count == winners@.len(),
            winning_total(stats@, winners@, i as int) == Some(total),
        decreases count - i,
    {
        if let Some(id) = winners.get(i) {
            if !occurs_before(winners, i, id) {
                let on_outcome: i128 = match stats.outcome_totals.get(id) {
                    Some(amount) => amount,
                    None => 0,
                };
                total = match total.checked_add(on_outcome) {
                    Some(sum) => sum,
                    None => {
                        proof {
                            assert(winning_total(stats@, winners@, i + 1) is None);
                            lemma_winning_none(stats@, winners@, i + 1, count as int);
                        }
                        return None;
                    },
                };
            }
        }
        i = i + 1;
    }
    Some(total)
}

/// A sum that does not fit on the way leaves no total.
proof fn lemma_winning_none(stats: BetStatsView, winners: Seq<u64>, i: int, n: int)
    requires
        0 <= i <= n,
        winning_total(stats, winners, i) is None,
    ensures
        winning_total(stats, winners, n) is None,
    decreases n,
{
    if i < n {
        lemma_winning_none(stats, winners, i, n - 1);
    }
}

impl BetManager {
    /// What a user's bet on a market pays.
    ///
    /// The pool, less the fee, is split over the bets on all winning outcomes, of
    /// which a tie has several, by their amounts; every division rounds toward
    /// zero. A bet that was not won pays nothing, and neither does one with
    /// nothing on record for its outcome.
    /// `fee_percentage` is the fee that was in force when the bet was made, in
    /// basis points.
    ///
    /// # Errors
    ///
    /// [`Error::NothingToClaim`] when there is no bet, [`Error::MarketNotFound`],
    /// [`Error::MarketNotResolved`] when the market has no result or the result
    /// has not been summed up, [`Error::InvalidInput`] when a step does not fit.
    pub fn calculate_bet_payout(
        env: &Ledger,
        market_id: &Symbol,
        user: &Address,
        fee_percentage: i128,
    ) -> (r: Result<i128, Error>)
        ensures
            r == env@.payout(*market_id, *user, fee_percentage),
    {
        let bet = match BetStorage::get_bet(env, market_id, user) {
            Some(bet) => bet,
            None => {
                return Err(Error::NothingToClaim);
            },
        };
        if !bet.is_winner() {
            return Ok(0);
        }
        let market = env.market(market_id)?;
        let winners = match &market.winning_outcomes {
            Some(winners) => winners,
            None => {
                return Err(Error::MarketNotResolved);
            },
        };
        let summary = match env.resolutions.get(market_id) {
            Some(summary) => *summary,
            None => {
                return Err(Error::MarketNotResolved);
            },
        };
        if summary.num_winning_outcomes == 0 {
            return Ok(0);
        }
        let stats = BetStorage::get_market_bet_stats(env, market_id);
        let total_bets_on_outcome: i128 = match stats.outcome_totals.get(bet.outcome.id) {
            Some(total) => total,
            None => 0,
        };
        if total_bets_on_outcome == 0 {
            return Ok(0);
        }
        let total: i128 = match sum_winning(&stats, winners) {
            Some(total) => total,
            None => {
                return Err(Error::InvalidInput);
            },
        };
        if total == 0 {
            return Ok(0);
        }
        match compute_payout(bet.amount, summary.total_pool, fee_percentage, total) {
            Some(payout) => Ok(payout),
            None => Err(Error::InvalidInput),
        }
    }
}

} // verus!
