//! What holds of betting as a whole.
use vstd::prelude::*;

use crate::error::Error;
use crate::ledger::LedgerView;
use crate::limits::{MAX_BET_AMOUNT, MIN_BET_AMOUNT};
use crate::types::{
    Address, BatchToken, Bet, BetKey, BetLimits, BetStatsView, BetStatus, MarketView, Outcome,
    Symbol,
};

verus! {

/// Limits set for all markets are those of every market without limits of its
/// own.
pub proof fn law_global_limits_apply(s: LedgerView, limits: BetLimits, market_id: Symbol)
    ensures
        s.with_global_limits(limits).effective_limits(market_id) == (if s.event_limits.contains_key(
            market_id.id,
        ) {
            s.effective_limits(market_id)
        } else {
            limits
        }),
{
}

/// Limits set for one market are those of that market, whatever is set for all
/// markets before or after, and of no other market.
pub proof fn law_event_limits_go_first(
    s: LedgerView,
    market_id: Symbol,
    limits: BetLimits,
    global: BetLimits,
    other: Symbol,
)
    ensures
        s.with_event_limits(market_id, limits).effective_limits(market_id) == limits,
        s.with_event_limits(market_id, limits).with_global_limits(global).effective_limits(
            market_id,
        ) == limits,
        other != market_id ==> s.with_event_limits(market_id, limits).effective_limits(other)
            == s.effective_limits(other),
{
}

/// A cap on single bets is read back as it was set, until it is removed; the
/// caps of other markets stay.
pub proof fn law_market_cap_reads_back(s: LedgerView, market_id: Symbol, cap: i128, other: Symbol)
    ensures
        s.with_market_cap(market_id, cap).market_cap(market_id) == Some(cap),
        s.with_market_cap(market_id, cap).without_market_cap(market_id).market_cap(market_id)
            is None,
        other != market_id ==> s.with_market_cap(market_id, cap).market_cap(other) == s.market_cap(
            other,
        ) && s.without_market_cap(market_id).market_cap(other) == s.market_cap(other),
{
}

/// A bet that is taken lies within the absolute bounds, within the limits of
/// its market and under the caps on single bets and on stakes.
pub proof fn law_taken_bet_is_within_bounds(
    s: LedgerView,
    user: Address,
    market_id: Symbol,
    outcome: Outcome,
    amount: i128,
    max_fee_bps: i128,
)
    requires
        s.limits_in_bounds(),
        s.placing(user, market_id, outcome, amount, max_fee_bps) is Ok,
    ensures
        MIN_BET_AMOUNT <= amount <= MAX_BET_AMOUNT,
        s.effective_limits(market_id).min_bet <= amount <= s.effective_limits(market_id).max_bet,
        s.market_cap(market_id) is Some ==> amount <= s.market_cap(market_id)->0,
        s.max_bet_cap is Some ==> s.placing(
            user,
            market_id,
            outcome,
            amount,
            max_fee_bps,
        )->Ok_0.user_stake(market_id, user) <= s.max_bet_cap->0,
{
    assert(crate::limits::limits_check(s.effective_limits(market_id)) is Ok);
}

/// The same holds of each bet of a batch, but for the cap on stakes, which is a
/// check of single bets.
pub proof fn law_taken_batch_is_within_bounds(
    s: LedgerView,
    user: Address,
    bets: Seq<(Symbol, Outcome, i128)>,
    max_fee_bps: i128,
    token: BatchToken,
    i: int,
)
    requires
        s.limits_in_bounds(),
        s.placing_batch(user, bets, max_fee_bps, token) is Ok,
        0 <= i < bets.len(),
    ensures
        MIN_BET_AMOUNT <= bets[i].2 <= MAX_BET_AMOUNT,
        s.effective_limits(bets[i].0).min_bet <= bets[i].2 <= s.effective_limits(
            bets[i].0,
        ).max_bet,
        s.market_cap(bets[i].0) is Some ==> bets[i].2 <= s.market_cap(bets[i].0)->0,
{
    crate::batch::lemma_requests_ok(s, user, bets, i, bets.len() as int);
    assert(crate::limits::limits_check(s.effective_limits(bets[i].0)) is Ok);
}

/// A caller who gives a bound of zero accepts any fee, for one bet and for a
/// batch.
pub proof fn law_no_bound_accepts_any_fee(
    s: LedgerView,
    user: Address,
    market_id: Symbol,
    outcome: Outcome,
    amount: i128,
    bets: Seq<(Symbol, Outcome, i128)>,
    token: BatchToken,
)
    ensures
        s.placing(user, market_id, outcome, amount, 0) != Err::<LedgerView, Error>(
            Error::FeeExceedsMax,
        ),
        s.placing_batch(user, bets, 0, token) != Err::<LedgerView, Error>(Error::FeeExceedsMax),
{
    lemma_no_fee_error(s, user, bets, bets.len() as int);
}

/// Neither the requests of a batch nor their writes are refused for a fee.
proof fn lemma_no_fee_error(
    s: LedgerView,
    user: Address,
    bets: Seq<(Symbol, Outcome, i128)>,
    n: int,
)
    ensures
        s.requests_check(user, bets, n) != Err::<(), Error>(Error::FeeExceedsMax),
        s.writes_check(user, bets, n) != Err::<(), Error>(Error::FeeExceedsMax),
    decreases n,
{
    if n > 0 {
        lemma_no_fee_error(s, user, bets, n - 1);
    }
}

/// No market takes bets at or after its end.
pub proof fn law_no_bets_after_the_end(market: MarketView, now: u64)
    requires
        market.betting_check(now) is Ok,
    ensures
        now < market.end_time,
        market.effective_deadline() is Ok,
        market.effective_deadline()->Ok_0 <= market.end_time,
{
}

/// A user who has placed a bet on a market cannot place another one there: the
/// same call again is refused as a second bet, unless the ledger takes no more
/// bets at all.
pub proof fn law_no_second_bet(
    s: LedgerView,
    user: Address,
    market_id: Symbol,
    outcome: Outcome,
    amount: i128,
    max_fee_bps: i128,
    other_outcome: Outcome,
    other_amount: i128,
    other_fee_bps: i128,
)
    requires
        s.placing(user, market_id, outcome, amount, max_fee_bps) is Ok,
    ensures
        ({
            let t = s.placing(user, market_id, outcome, amount, max_fee_bps)->Ok_0;
            &&& t.placing(user, market_id, outcome, amount, max_fee_bps) == Err::<LedgerView, Error>(
                if t.bets_left == Some(0u32) {
                    Error::RateLimitExceeded
                } else {
                    Error::AlreadyBet
                },
            )
            &&& t.placing(user, market_id, other_outcome, other_amount, other_fee_bps) is Err
        }),
{
}

/// A user with a bet on a market that is not cancelled can place neither a bet
/// there nor a batch that names the market.
pub proof fn law_standing_bet_bars_another(
    s: LedgerView,
    user: Address,
    market_id: Symbol,
    outcome: Outcome,
    amount: i128,
    max_fee_bps: i128,
    bets: Seq<(Symbol, Outcome, i128)>,
    token: BatchToken,
    i: int,
)
    requires
        s.bet(market_id, user) matches Some(bet) && bet.status != BetStatus::Cancelled,
    ensures
        s.placing(user, market_id, outcome, amount, max_fee_bps) is Err,
        0 <= i < bets.len() && bets[i].0 == market_id ==> s.placing_batch(
            user,
            bets,
            max_fee_bps,
            token,
        ) is Err,
{
    assert(s.admission(user, market_id, outcome, amount) is Err);
    let n = bets.len() as int;
    if 0 <= i < n && bets[i].0 == market_id && s.requests_check(user, bets, n) is Ok {
        crate::batch::lemma_requests_ok(s, user, bets, i, n);
        assert(s.admission(user, market_id, bets[i].1, bets[i].2) is Err);
    }
}

/// A user who has placed a bet on a market cannot place a batch that names it.
pub proof fn law_no_batch_after_a_bet(
    s: LedgerView,
    user: Address,
    market_id: Symbol,
    outcome: Outcome,
    amount: i128,
    max_fee_bps: i128,
    bets: Seq<(Symbol, Outcome, i128)>,
    other_fee_bps: i128,
    token: BatchToken,
    i: int,
)
    requires
        s.placing(user, market_id, outcome, amount, max_fee_bps) is Ok,
        0 <= i < bets.len(),
        bets[i].0 == market_id,
    ensures
        s.placing(user, market_id, outcome, amount, max_fee_bps)->Ok_0.placing_batch(
            user,
            bets,
            other_fee_bps,
            token,
        ) is Err,
{
    let t = s.placing(user, market_id, outcome, amount, max_fee_bps)->Ok_0;
    law_standing_bet_bars_another(
        t,
        user,
        market_id,
        outcome,
        amount,
        other_fee_bps,
        bets,
        token,
        i,
    );
}

/// A user who has placed a batch cannot place another bet on any of its markets,
/// alone or in another batch. The bet that the batch placed there is the reason,
/// where it would be taken otherwise.
pub proof fn law_no_second_bet_after_a_batch(
    s: LedgerView,
    user: Address,
    bets: Seq<(Symbol, Outcome, i128)>,
    max_fee_bps: i128,
    token: BatchToken,
    i: int,
    outcome: Outcome,
    amount: i128,
    other_bets: Seq<(Symbol, Outcome, i128)>,
    other_fee_bps: i128,
    other_token: BatchToken,
    j: int,
)
    requires
        s.placing_batch(user, bets, max_fee_bps, token) is Ok,
        0 <= i < bets.len(),
        0 <= j < other_bets.len(),
        other_bets[j].0 == bets[i].0,
    ensures
        ({
            let t = s.placing_batch(user, bets, max_fee_bps, token)->Ok_0;
            &&& t.admission(user, bets[i].0, bets[i].1, bets[i].2) == Err::<(), Error>(
                Error::AlreadyBet,
            )
            &&& t.placing(user, bets[i].0, outcome, amount, other_fee_bps) is Err
            &&& t.placing_batch(user, other_bets, other_fee_bps, other_token) is Err
        }),
{
    let n = bets.len() as int;
    let market_id = bets[i].0;
    let t = s.placing_batch(user, bets, max_fee_bps, token)->Ok_0;
    law_batch_places_every_bet(s, user, bets, max_fee_bps, token);
    assert(t.bet(market_id, user) == Some(s.new_bet(user, market_id, bets[i].1, bets[i].2)));
    law_standing_bet_bars_another(
        t,
        user,
        market_id,
        outcome,
        amount,
        other_fee_bps,
        other_bets,
        other_token,
        j,
    );
    crate::batch::lemma_requests_ok(s, user, bets, i, n);
    let balances = s.locking(user, crate::batch::total_amount(bets, n) as i128)->Ok_0;
    lemma_writes_leave_rules(s.batch_paid(user, bets, balances), s, user, bets, n, market_id);
    assert(t.effective_limits(market_id) == s.effective_limits(market_id));
}

/// The writes of a batch change nothing that a market is checked by before it
/// takes a bet.
proof fn lemma_writes_leave_rules(
    paid: LedgerView,
    base: LedgerView,
    user: Address,
    bets: Seq<(Symbol, Outcome, i128)>,
    n: int,
    market_id: Symbol,
)
    requires
        0 <= n <= bets.len(),
        base.requests_check(user, bets, bets.len() as int) is Ok,
        base.writes_check(user, bets, bets.len() as int) is Ok,
        paid.markets == base.markets,
    ensures
        ({
            let t = paid.after_writes(base, user, bets, n);
            let before = base.markets[market_id];
            let after = t.markets[market_id];
            &&& t.context == paid.context
            &&& t.global_limits == paid.global_limits
            &&& t.event_limits == paid.event_limits
            &&& t.market_caps == paid.market_caps
            &&& t.markets.contains_key(market_id) == base.markets.contains_key(market_id)
            &&& after == (MarketView {
                total_staked: after.total_staked,
                votes: after.votes,
                stakes: after.stakes,
                ..before
            })
        }),
    decreases n,
{
    if n > 0 {
        lemma_writes_leave_rules(paid, base, user, bets, n - 1, market_id);
        crate::batch::lemma_requests_ok(base, user, bets, n - 1, bets.len() as int);
        crate::batch::lemma_writes_ok(base, user, bets, n - 1, bets.len() as int);
    }
}

/// Placing a bet touches no other bet, and no other market.
pub proof fn law_placing_is_local(
    s: LedgerView,
    user: Address,
    market_id: Symbol,
    outcome: Outcome,
    amount: i128,
    max_fee_bps: i128,
    other_market: Symbol,
    other_user: Address,
)
    requires
        s.placing(user, market_id, outcome, amount, max_fee_bps) is Ok,
        other_market != market_id || other_user != user,
    ensures
        ({
            let t = s.placing(user, market_id, outcome, amount, max_fee_bps)->Ok_0;
            &&& t.bet(other_market, other_user) == s.bet(other_market, other_user)
            &&& t.user_stake(other_market, other_user) == s.user_stake(other_market, other_user)
            &&& other_market != market_id ==> t.market_stats(other_market) == s.market_stats(
                other_market,
            ) && t.registry(other_market) == s.registry(other_market) && t.markets.contains_key(
                other_market,
            ) == s.markets.contains_key(other_market) && t.markets[other_market]
                == s.markets[other_market]
            &&& t.context == s.context
        }),
{
}

/// A transfer takes from the payer just what it gives to the receiver, and
/// touches nobody else.
pub proof fn law_transfer_conserves(
    balances: Map<Address, i128>,
    from: Address,
    to: Address,
    amount: i128,
    who: Address,
)
    requires
        crate::funds::moved(balances, from, to, amount) is Ok,
    ensures
        crate::ledger::balance_in(crate::funds::moved(balances, from, to, amount)->Ok_0, who)
            == crate::ledger::balance_in(balances, who) - (if who == from {
            amount
        } else {
            0
        }) + (if who == to {
            amount
        } else {
            0
        }),
{
}

/// What a bet takes from its user it gives to the contract; nobody else pays or
/// is paid.
pub proof fn law_bet_moves_its_amount(
    s: LedgerView,
    user: Address,
    market_id: Symbol,
    outcome: Outcome,
    amount: i128,
    max_fee_bps: i128,
    who: Address,
)
    requires
        s.placing(user, market_id, outcome, amount, max_fee_bps) is Ok,
    ensures
        s.placing(user, market_id, outcome, amount, max_fee_bps)->Ok_0.balance(who) == s.balance(
            who,
        ) - (if who == user {
            amount
        } else {
            0
        }) + (if who == s.context.contract {
            amount
        } else {
            0
        }),
{
    law_transfer_conserves(s.balances, user, s.context.contract, amount, who);
}

/// The statistics count a bet and uncount it when it is cancelled.
pub proof fn law_stats_round_trip(stats: BetStatsView, outcome: Outcome, amount: i128)
    requires
        stats.after_bet(outcome, amount) is Ok,
        stats.outcome_totals.contains_key(outcome.id) ==> stats.outcome_total(outcome) > 0,
    ensures
        stats.after_bet(outcome, amount)->Ok_0.after_cancel(outcome, amount) == Ok::<
            BetStatsView,
            Error,
        >(stats),
{
    let t = stats.after_bet(outcome, amount)->Ok_0;
    assert(t.after_cancel(outcome, amount)->Ok_0.outcome_totals =~= stats.outcome_totals);
}

/// Cancelling a bet undoes it: the call is granted until the market ends, the
/// amount goes back in full, the statistics are those before the bet (where no
/// outcome was on record with nothing on it), the total staked on the market is
/// what it was and the user holds no stake and no vote there. The bet stays on
/// record as cancelled, and the user may bet again.
pub proof fn law_cancel_undoes_bet(
    s: LedgerView,
    user: Address,
    market_id: Symbol,
    outcome: Outcome,
    amount: i128,
    max_fee_bps: i128,
)
    requires
        s.placing(user, market_id, outcome, amount, max_fee_bps) is Ok,
        s.balance(s.context.contract) >= 0,
        !s.context.cancelling_paused,
        !s.context.locks.held(crate::ledger::GuardScope::UnlockFunds),
    ensures
        ({
            let t = s.placing(user, market_id, outcome, amount, max_fee_bps)->Ok_0;
            let u = t.cancelling(user, market_id)->Ok_0;
            &&& t.cancelling(user, market_id) is Ok
            &&& forall|who: Address| #[trigger] u.balance(who) == s.balance(who)
            &&& (s.market_stats(market_id).outcome_totals.contains_key(outcome.id)
                ==> s.market_stats(market_id).outcome_total(outcome) > 0) ==> u.market_stats(
                market_id,
            ) == s.market_stats(market_id)
            &&& u.markets[market_id] == (MarketView {
                votes: s.markets[market_id].votes.remove(user.id),
                stakes: s.markets[market_id].stakes.remove(user.id),
                ..s.markets[market_id]
            })
            &&& u.bet(market_id, user) == Some(
                s.new_bet(user, market_id, outcome, amount).with_status(BetStatus::Cancelled),
            )
            &&& u.admission(user, market_id, outcome, amount) is Ok
        }),
{
    let t = s.placing(user, market_id, outcome, amount, max_fee_bps)->Ok_0;
    let bet = s.new_bet(user, market_id, outcome, amount);
    crate::books::lemma_enlisted(s.registries, t.registries, market_id, user);
    assert(t.bet(market_id, user) == Some(bet));
    assert(t.cancel_check(user, market_id) is Ok);
    assert(t.unlocking(user, amount) is Ok);
    let u = t.cancelling(user, market_id)->Ok_0;
    let stats = s.market_stats(market_id);
    if stats.outcome_totals.contains_key(outcome.id) ==> stats.outcome_total(outcome) > 0 {
        law_stats_round_trip(stats, outcome, amount);
    }
    let restored = MarketView {
        votes: s.markets[market_id].votes.remove(user.id),
        stakes: s.markets[market_id].stakes.remove(user.id),
        ..s.markets[market_id]
    };
    assert(u.markets[market_id].votes =~= restored.votes);
    assert(u.markets[market_id].stakes =~= restored.stakes);
    assert(u.effective_limits(market_id) == s.effective_limits(market_id));
}

/// Cancelling a bet a second time is refused.
pub proof fn law_no_second_cancel(s: LedgerView, user: Address, market_id: Symbol)
    requires
        s.books_in_order(),
        s.cancelling(user, market_id) is Ok,
    ensures
        s.cancelling(user, market_id)->Ok_0.cancelling(user, market_id) == Err::<LedgerView, Error>(
            Error::InvalidState,
        ),
{
    let key = crate::ledger::bet_key(market_id, user);
    assert(s.bets.contains_key(key));
    assert(s.bets[key].key() == key);
}

/// A batch is placed once: the same user cannot use its token again, with
/// whatever bets. Other users and other tokens are not affected.
pub proof fn law_batch_is_placed_once(
    s: LedgerView,
    user: Address,
    bets: Seq<(Symbol, Outcome, i128)>,
    max_fee_bps: i128,
    token: BatchToken,
    other_bets: Seq<(Symbol, Outcome, i128)>,
    other_fee_bps: i128,
    other_user: Address,
    other_token: BatchToken,
)
    requires
        s.placing_batch(user, bets, max_fee_bps, token) is Ok,
        other_user != user || other_token != token,
    ensures
        ({
            let t = s.placing_batch(user, bets, max_fee_bps, token)->Ok_0;
            let other_key = crate::batch::batch_key(other_user, other_token);
            &&& t.placing_batch(user, other_bets, other_fee_bps, token) == Err::<LedgerView, Error>(
                Error::IdempotentBatchAlreadyApplied,
            )
            &&& t.batches.contains_key(other_key) == s.batches.contains_key(other_key)
        }),
{
    let n = bets.len() as int;
    let balances = s.locking(user, crate::batch::total_amount(bets, n) as i128)->Ok_0;
    lemma_after_writes(s.batch_paid(user, bets, balances), s, user, bets, n);
}

/// What the writes of a batch leave alone, and the bets and stakes that they
/// file.
proof fn lemma_after_writes(
    paid: LedgerView,
    base: LedgerView,
    user: Address,
    bets: Seq<(Symbol, Outcome, i128)>,
    n: int,
)
    requires
        0 <= n <= bets.len(),
        base.requests_check(user, bets, bets.len() as int) is Ok,
        base.writes_check(user, bets, bets.len() as int) is Ok,
    ensures
        ({
            let t = paid.after_writes(base, user, bets, n);
            &&& t.context == paid.context
            &&& t.batches == paid.batches
            &&& t.balances == paid.balances
            &&& t.bets_left == paid.bets_left
            &&& forall|i: int|
                0 <= i < n ==> t.bet((#[trigger] bets[i]).0, user) == Some(
                    base.new_bet(user, bets[i].0, bets[i].1, bets[i].2),
                )
            &&& forall|i: int|
                0 <= i < n ==> base.stake_sum((#[trigger] bets[i]).0, user, bets[i].2) == Ok::<
                    i128,
                    Error,
                >(t.user_stake(bets[i].0, user))
        }),
    decreases n,
{
    if n > 0 {
        lemma_after_writes(paid, base, user, bets, n - 1);
        crate::batch::lemma_requests_ok(base, user, bets, n - 1, bets.len() as int);
        crate::batch::lemma_writes_ok(base, user, bets, n - 1, bets.len() as int);
        let t = paid.after_writes(base, user, bets, n);
        assert forall|i: int| 0 <= i < n implies t.bet((#[trigger] bets[i]).0, user) == Some(
            base.new_bet(user, bets[i].0, bets[i].1, bets[i].2),
        ) by {
            if i < n - 1 {
                assert(bets[i].0 != bets[n - 1].0);
            }
        }
        assert forall|i: int| 0 <= i < n implies base.stake_sum(
            (#[trigger] bets[i]).0,
            user,
            bets[i].2,
        ) == Ok::<i128, Error>(t.user_stake(bets[i].0, user)) by {
            if i < n - 1 {
                assert(bets[i].0 != bets[n - 1].0);
            }
        }
    }
}

/// A batch that is placed files each of its bets, adds each to what the user has
/// staked on its market, moves the sum of their amounts from the user to the
/// contract and uses up one place of the ledger for each.
pub proof fn law_batch_places_every_bet(
    s: LedgerView,
    user: Address,
    bets: Seq<(Symbol, Outcome, i128)>,
    max_fee_bps: i128,
    token: BatchToken,
)
    requires
        s.placing_batch(user, bets, max_fee_bps, token) is Ok,
    ensures
        ({
            let t = s.placing_batch(user, bets, max_fee_bps, token)->Ok_0;
            let total = crate::batch::total_amount(bets, bets.len() as int);
            &&& forall|i: int|
                0 <= i < bets.len() ==> t.bet((#[trigger] bets[i]).0, user) == Some(
                    s.new_bet(user, bets[i].0, bets[i].1, bets[i].2),
                )
            &&& forall|i: int|
                0 <= i < bets.len() ==> t.user_stake((#[trigger] bets[i]).0, user) == s.user_stake(
                    bets[i].0,
                    user,
                ) + bets[i].2
            &&& forall|who: Address| #[trigger]
                t.balance(who) == s.balance(who) - (if who == user {
                    total
                } else {
                    0
                }) + (if who == s.context.contract {
                    total
                } else {
                    0
                })
            &&& s.bets_left is Some ==> t.bets_left == Some(
                (s.bets_left->0 - bets.len()) as u32,
            ) && s.bets_left->0 >= bets.len()
        }),
{
    let n = bets.len() as int;
    let balances = s.locking(user, crate::batch::total_amount(bets, n) as i128)->Ok_0;
    crate::batch::lemma_requests_ok(s, user, bets, n - 1, n);
    let paid = s.batch_paid(user, bets, balances);
    lemma_after_writes(paid, s, user, bets, n);
    let t = s.placing_batch(user, bets, max_fee_bps, token)->Ok_0;
    let written = paid.after_writes(s, user, bets, n);
    assert forall|who: Address| #[trigger]
        t.balance(who) == s.balance(who) - (if who == user {
            crate::batch::total_amount(bets, n)
        } else {
            0
        }) + (if who == s.context.contract {
            crate::batch::total_amount(bets, n)
        } else {
            0
        }) by {
        law_transfer_conserves(
            s.balances,
            user,
            s.context.contract,
            crate::batch::total_amount(bets, n) as i128,
            who,
        );
    }
    assert forall|i: int| 0 <= i < bets.len() implies t.bet((#[trigger] bets[i]).0, user) == Some(
        s.new_bet(user, bets[i].0, bets[i].1, bets[i].2),
    ) by {
        assert(written.bet(bets[i].0, user) == t.bet(bets[i].0, user));
    }
    assert forall|i: int| 0 <= i < bets.len() implies t.user_stake((#[trigger] bets[i]).0, user)
        == s.user_stake(bets[i].0, user) + bets[i].2 by {
        assert(written.user_stake(bets[i].0, user) == t.user_stake(bets[i].0, user));
        assert(s.stake_sum(bets[i].0, user, bets[i].2) is Ok);
    }
}

/// Striking a bet twice is striking it once, and writing statistics twice is
/// writing them once; either is read back.
pub proof fn law_writing_is_idempotent(
    s: LedgerView,
    market_id: Symbol,
    user: Address,
    stats: BetStatsView,
)
    ensures
        s.without_bet(market_id, user).without_bet(market_id, user) == s.without_bet(
            market_id,
            user,
        ),
        s.without_bet(market_id, user).bet(market_id, user) is None,
        s.with_stats(market_id, stats).with_stats(market_id, stats) == s.with_stats(
            market_id,
            stats,
        ),
        s.with_stats(market_id, stats).market_stats(market_id) == stats,
{
    let t = s.without_bet(market_id, user);
    assert(t.without_bet(market_id, user).bets =~= t.bets);
    let u = s.with_stats(market_id, stats);
    assert(u.with_stats(market_id, stats).stats =~= u.stats);
}

/// Storing a bet twice is storing it once, and its user is listed once.
pub proof fn law_storing_is_idempotent(s: LedgerView, bet: Bet)
    requires
        s.books_in_order(),
        s.with_bet(bet) is Ok,
    ensures
        ({
            let t = s.with_bet(bet)->Ok_0;
            &&& t.with_bet(bet) == Ok::<LedgerView, Error>(t)
            &&& t.bet(bet.market_id, bet.user) == Some(bet)
            &&& t.registry(bet.market_id).contains(bet.user.id)
            &&& t.registry(bet.market_id).no_duplicates()
        }),
{
    let t = s.with_bet(bet)->Ok_0;
    crate::books::lemma_enlisted(s.registries, t.registries, bet.market_id, bet.user);
    assert(t.bets.contains_key(bet.key()));
    assert(t.bets.insert(bet.key(), bet) =~= t.bets);
}

/// Settling a market settles every bet on it, whoever made it: a bet is won
/// when its outcome is among the winners and lost otherwise. Bets on other
/// markets stay.
pub proof fn law_resolving_settles_every_bet(
    s: LedgerView,
    market_id: Symbol,
    winners: Seq<u64>,
    key: BetKey,
)
    requires
        s.bets.contains_key(key),
    ensures
        ({
            let bet = s.resolving(market_id, winners).bets[key];
            &&& s.resolving(market_id, winners).bets.contains_key(key)
            &&& key.market_id == market_id ==> bet == s.bets[key].with_status(
                if winners.contains(s.bets[key].outcome.id) {
                    BetStatus::Won
                } else {
                    BetStatus::Lost
                },
            )
            &&& key.market_id != market_id ==> bet == s.bets[key]
        }),
{
}

/// Once a market has been settled, no bet on it can be cancelled, and nobody who
/// has bet on it can bet on it again.
pub proof fn law_settled_bets_are_final(
    s: LedgerView,
    market_id: Symbol,
    winners: Seq<u64>,
    user: Address,
    outcome: Outcome,
    amount: i128,
    max_fee_bps: i128,
)
    requires
        s.bet(market_id, user) is Some,
    ensures
        s.resolving(market_id, winners).cancelling(user, market_id) is Err,
        s.resolving(market_id, winners).placing(user, market_id, outcome, amount, max_fee_bps)
            is Err,
{
    law_resolving_settles_every_bet(
        s,
        market_id,
        winners,
        crate::ledger::bet_key(market_id, user),
    );
}

/// Where every bet on a market has been settled, settling the first `n` again
/// asks for nothing.
proof fn lemma_settled_is_quiet(s: LedgerView, market_id: Symbol, winners: Seq<u64>, n: int)
    requires
        s.books_in_order(),
        0 <= n <= s.registry(market_id).len(),
    ensures
        s.resolving(market_id, winners).resolution_effects(market_id, winners, n) == s.resolving(
            market_id,
            winners,
        ).effects,
    decreases n,
{
    if n > 0 {
        lemma_settled_is_quiet(s, market_id, winners, n - 1);
        let t = s.resolving(market_id, winners);
        let user = Address { id: t.registry(market_id)[n - 1] };
        let key = crate::ledger::bet_key(market_id, user);
        if t.bets.contains_key(key) {
            law_resolving_settles_every_bet(s, market_id, winners, key);
        }
    }
}

/// Settling a market again with the same winners changes nothing and publishes
/// nothing.
pub proof fn law_resolving_is_idempotent(s: LedgerView, market_id: Symbol, winners: Seq<u64>)
    requires
        s.books_in_order(),
    ensures
        s.resolving(market_id, winners).resolving(market_id, winners) == s.resolving(
            market_id,
            winners,
        ),
{
    let t = s.resolving(market_id, winners);
    let u = t.resolving(market_id, winners);
    lemma_settled_is_quiet(s, market_id, winners, s.registry(market_id).len() as int);
    assert(u.bets =~= t.bets);
}

/// Paying back a market leaves no bet on it active and touches no other bet; an
/// active bet is marked as refunded, and every other status stays.
pub proof fn law_refunding_closes_every_bet(s: LedgerView, market_id: Symbol, key: BetKey)
    requires
        s.books_in_order(),
        s.refunding(market_id) is Ok,
        s.bets.contains_key(key),
    ensures
        ({
            let bet = s.refunding(market_id)->Ok_0.bets[key];
            &&& s.refunding(market_id)->Ok_0.bets.contains_key(key)
            &&& bet == (if key.market_id == market_id && s.bets[key].status == BetStatus::Active {
                s.bets[key].with_status(BetStatus::Refunded)
            } else {
                s.bets[key]
            })
        }),
{
    let bettors = s.registry(market_id);
    crate::settlement::lemma_refund_steps(s, market_id, bettors.len() as int);
    assert(bettors.take(bettors.len() as int) =~= bettors);
    assert(s.refunding(market_id)->Ok_0.bets.dom().contains(key));
}

/// What `user` is owed when `market_id` is called off: the amount of their bet,
/// where it is active.
pub open spec fn owed(s: LedgerView, market_id: Symbol, user: Address) -> int {
    match s.bet(market_id, user) {
        Some(bet) => if bet.status == BetStatus::Active {
            bet.amount as int
        } else {
            0
        },
        None => 0,
    }
}

/// Paying back the first `n` bettors gives each of them what they are owed.
pub proof fn lemma_refunds_paid(s: LedgerView, market_id: Symbol, n: int, user: Address)
    requires
        s.books_in_order(),
        s.markets.contains_key(market_id),
        user != s.context.contract,
        0 <= n <= s.registry(market_id).len(),
        s.refund_steps(market_id, s.registry(market_id), n) is Ok,
    ensures
        s.refund_steps(market_id, s.registry(market_id), n)->Ok_0.balance(user) == s.balance(user)
            + (if s.registry(market_id).take(n).contains(user.id) {
            owed(s, market_id, user)
        } else {
            0
        }),
    decreases n,
{
    let bettors = s.registry(market_id);
    if n > 0 {
        lemma_refunds_paid(s, market_id, n - 1, user);
        crate::settlement::lemma_next_bettor(s, market_id, n - 1);
        crate::settlement::lemma_take_one_more(bettors, n - 1);
        assert(bettors.take(n - 1 + 1) == bettors.take(n));
        assert(bettors.take(n).contains(user.id) == (bettors.take(n - 1).contains(user.id)
            || user.id == bettors[n - 1]));
        let t = s.refund_steps(market_id, bettors, n - 1)->Ok_0;
        let next = Address { id: bettors[n - 1] };
        if user.id == bettors[n - 1] {
            assert(user == next);
        }
        if owed(s, market_id, next) != 0 {
            let bet = s.bet(market_id, next)->0;
            law_transfer_conserves(
                t.balances,
                t.context.contract,
                next,
                bet.amount,
                user,
            );
        }
    } else {
        assert(bettors.take(0) =~= Seq::<u64>::empty());
    }
}

/// Paying back a market gives every user the whole amount of their active bet,
/// and nothing to anybody else.
pub proof fn law_refunding_pays_what_is_owed(s: LedgerView, market_id: Symbol, user: Address)
    requires
        s.books_in_order(),
        s.refunding(market_id) is Ok,
        user != s.context.contract,
    ensures
        s.refunding(market_id)->Ok_0.balance(user) == s.balance(user) + owed(s, market_id, user),
{
    let bettors = s.registry(market_id);
    lemma_refunds_paid(s, market_id, bettors.len() as int, user);
    assert(bettors.take(bettors.len() as int) =~= bettors);
    let key = crate::ledger::bet_key(market_id, user);
    if s.bets.contains_key(key) {
        assert(bettors.contains(user.id));
    }
}

/// What the first `n` bettors of `market_id` are owed.
pub open spec fn owed_in_all(s: LedgerView, market_id: Symbol, n: int) -> int
    decreases n,
{
    if n <= 0 {
        0
    } else {
        owed_in_all(s, market_id, n - 1) + owed(
            s,
            market_id,
            Address { id: s.registry(market_id)[n - 1] },
        )
    }
}

/// Whether the bet of the bettor `id` on `market_id` is active.
pub open spec fn has_active_bet(s: LedgerView, market_id: Symbol, id: u64) -> bool {
    s.bet(market_id, Address { id }) matches Some(bet) && bet.status == BetStatus::Active
}

/// `entries` without those of the bettors whose bets on `market_id` are active.
pub open spec fn without_active(
    s: LedgerView,
    market_id: Symbol,
    entries: Map<u64, i128>,
) -> Map<u64, i128> {
    entries.remove_keys(Set::new(|id: u64| has_active_bet(s, market_id, id)))
}

/// Paying back the first `n` bettors takes what they are owed off the market, and
/// those of them with active bets out of its votes and stakes.
proof fn lemma_refunds_unstake(s: LedgerView, market_id: Symbol, n: int)
    requires
        s.books_in_order(),
        s.markets.contains_key(market_id),
        0 <= n <= s.registry(market_id).len(),
        s.refund_steps(market_id, s.registry(market_id), n) is Ok,
    ensures
        ({
            let t = s.refund_steps(market_id, s.registry(market_id), n)->Ok_0;
            let before = s.markets[market_id];
            let after = t.markets[market_id];
            &&& t.markets == s.markets.insert(market_id, after)
            &&& after == (MarketView {
                total_staked: after.total_staked,
                votes: after.votes,
                stakes: after.stakes,
                ..before
            })
            &&& owed_in_all(s, market_id, n) >= 0
            &&& after.total_staked == crate::math::clamp(
                before.total_staked - owed_in_all(s, market_id, n),
            )
            &&& forall|id: u64| #[trigger]
                after.votes.contains_key(id) == (before.votes.contains_key(id) && !(s.registry(
                    market_id,
                ).take(n).contains(id) && has_active_bet(s, market_id, id)))
            &&& forall|id: u64| #[trigger]
                after.stakes.contains_key(id) == (before.stakes.contains_key(id) && !(s.registry(
                    market_id,
                ).take(n).contains(id) && has_active_bet(s, market_id, id)))
            &&& forall|id: u64| #[trigger]
                after.votes.contains_key(id) ==> after.votes[id] == before.votes[id]
            &&& forall|id: u64| #[trigger]
                after.stakes.contains_key(id) ==> after.stakes[id] == before.stakes[id]
        }),
    decreases n,
{
    let bettors = s.registry(market_id);
    if n > 0 {
        lemma_refunds_unstake(s, market_id, n - 1);
        crate::settlement::lemma_next_bettor(s, market_id, n - 1);
        crate::settlement::lemma_take_one_more(bettors, n - 1);
        assert(bettors.take(n - 1 + 1) == bettors.take(n));
        let t = s.refund_steps(market_id, bettors, n - 1)->Ok_0;
        let u = s.refund_steps(market_id, bettors, n)->Ok_0;
        let next = Address { id: bettors[n - 1] };
        assert(u.markets =~= s.markets.insert(market_id, u.markets[market_id]));
        assert forall|id: u64| #[trigger]
            bettors.take(n).contains(id) == (bettors.take(n - 1).contains(id) || id == next.id) by {}
    } else {
        assert(bettors.take(0) =~= Seq::<u64>::empty());
        assert(s.markets =~= s.markets.insert(market_id, s.markets[market_id]));
    }
}

/// Paying back a market lowers what is staked on it by the sum of its active
/// bets, as far as the number goes, and takes exactly their users out of its
/// votes and stakes. Nothing else of the market changes, and no other market.
pub proof fn law_refunding_unstakes_active_bets(s: LedgerView, market_id: Symbol)
    requires
        s.books_in_order(),
        s.refunding(market_id) is Ok,
    ensures
        s.refunding(market_id)->Ok_0.markets == s.markets.insert(
            market_id,
            (MarketView {
                total_staked: crate::math::clamp(
                    s.markets[market_id].total_staked - owed_in_all(
                        s,
                        market_id,
                        s.registry(market_id).len() as int,
                    ),
                ),
                votes: without_active(s, market_id, s.markets[market_id].votes),
                stakes: without_active(s, market_id, s.markets[market_id].stakes),
                ..s.markets[market_id]
            }),
        ),
{
    let bettors = s.registry(market_id);
    let n = bettors.len() as int;
    lemma_refunds_unstake(s, market_id, n);
    assert(bettors.take(n) =~= bettors);
    let after = s.refunding(market_id)->Ok_0.markets[market_id];
    assert forall|id: u64| has_active_bet(s, market_id, id) implies #[trigger] bettors.contains(
        id,
    ) by {
        assert(s.bets.contains_key(crate::ledger::bet_key(market_id, Address { id })));
    }
    assert(after.votes =~= without_active(s, market_id, s.markets[market_id].votes));
    assert(after.stakes =~= without_active(s, market_id, s.markets[market_id].stakes));
}

/// While settling is paused, no bet is settled.
pub proof fn law_paused_settling_is_refused(s: LedgerView, market_id: Symbol, winners: Seq<u64>)
    requires
        s.context.resolving_paused,
    ensures
        s.settling(market_id, winners) == Err::<LedgerView, Error>(Error::CircuitBreakerOpen),
{
}

/// While paying back is paused, nobody is paid back.
pub proof fn law_paused_refund_is_refused(s: LedgerView, market_id: Symbol)
    requires
        s.context.refunding_paused,
    ensures
        s.refunding(market_id) == Err::<LedgerView, Error>(Error::CircuitBreakerOpen),
{
}

/// Where no bet on a market is active, paying back the first `n` bettors does
/// nothing.
proof fn lemma_nothing_to_refund(s: LedgerView, market_id: Symbol, bettors: Seq<u64>, n: int)
    requires
        forall|k: BetKey| #[trigger]
            s.bets.contains_key(k) && k.market_id == market_id ==> s.bets[k].status
                != BetStatus::Active,
        0 <= n <= bettors.len(),
    ensures
        s.refund_steps(market_id, bettors, n) == Ok::<LedgerView, Error>(s),
    decreases n,
{
    if n > 0 {
        lemma_nothing_to_refund(s, market_id, bettors, n - 1);
        let key = crate::ledger::bet_key(market_id, Address { id: bettors[n - 1] });
        if s.bets.contains_key(key) {
            assert(s.bets[key].status != BetStatus::Active);
        }
    }
}

/// No bet is paid back twice: paying back a market again changes nothing.
pub proof fn law_refunding_is_idempotent(s: LedgerView, market_id: Symbol)
    requires
        s.books_in_order(),
        s.refunding(market_id) is Ok,
    ensures
        s.refunding(market_id)->Ok_0.refunding(market_id) == s.refunding(market_id),
{
    let t = s.refunding(market_id)->Ok_0;
    let bettors = s.registry(market_id);
    crate::settlement::lemma_refund_steps(s, market_id, bettors.len() as int);
    assert forall|k: BetKey| #[trigger]
        t.bets.contains_key(k) && k.market_id == market_id implies t.bets[k].status
        != BetStatus::Active by {
        assert(t.bets.dom().contains(k));
        assert(s.bets.dom().contains(k));
        law_refunding_closes_every_bet(s, market_id, k);
    }
    assert(t.registry(market_id) == bettors);
    lemma_nothing_to_refund(t, market_id, bettors, bettors.len() as int);
}

/// Once a market has been paid back, no bet on it can be cancelled.
pub proof fn law_no_cancel_after_refund(s: LedgerView, user: Address, market_id: Symbol)
    requires
        s.books_in_order(),
        s.refunding(market_id) is Ok,
    ensures
        s.refunding(market_id)->Ok_0.cancelling(user, market_id) is Err,
{
    let t = s.refunding(market_id)->Ok_0;
    let key = crate::ledger::bet_key(market_id, user);
    crate::settlement::lemma_refund_steps(s, market_id, s.registry(market_id).len() as int);
    if t.bets.contains_key(key) {
        assert(t.bets.dom().contains(key));
        assert(s.bets.dom().contains(key));
        law_refunding_closes_every_bet(s, market_id, key);
    }
}

/// The effects asked for before the writes of a batch stay where they are.
proof fn lemma_writes_extend_effects(
    paid: LedgerView,
    base: LedgerView,
    user: Address,
    bets: Seq<(Symbol, Outcome, i128)>,
    n: int,
    i: int,
)
    requires
        0 <= i < paid.effects.len(),
    ensures
        paid.after_writes(base, user, bets, n).effects.len() >= paid.effects.len(),
        paid.after_writes(base, user, bets, n).effects[i] == paid.effects[i],
    decreases n,
{
    if n > 0 {
        lemma_writes_extend_effects(paid, base, user, bets, n - 1, i);
    }
}

/// Whoever places, cancels or caps has to authorise it, and that comes before
/// every other effect of the call.
pub proof fn law_actor_must_authorise(
    s: LedgerView,
    user: Address,
    market_id: Symbol,
    outcome: Outcome,
    amount: i128,
    max_fee_bps: i128,
    bets: Seq<(Symbol, Outcome, i128)>,
    token: BatchToken,
)
    ensures
        ({
            let n = s.effects.len() as int;
            let auth = crate::ledger::Effect::RequireAuth { address: user };
            &&& s.placing(user, market_id, outcome, amount, max_fee_bps) matches Ok(t)
                ==> t.effects[n] == auth
            &&& s.cancelling(user, market_id) matches Ok(t) ==> t.effects[n] == auth
            &&& s.placing_batch(user, bets, max_fee_bps, token) matches Ok(t) ==> t.effects[n]
                == auth
            &&& s.with_max_bet_cap(user, amount).effects[n] == auth
        }),
{
    let n = s.effects.len() as int;
    if s.placing_batch(user, bets, max_fee_bps, token) is Ok {
        let len = bets.len() as int;
        let balances = s.locking(user, crate::batch::total_amount(bets, len) as i128)->Ok_0;
        lemma_writes_extend_effects(
            s.batch_paid(user, bets, balances),
            s,
            user,
            bets,
            len,
            n,
        );
    }
}

/// The sum of the amounts on `outcomes`.
pub open spec fn amount_on(stats: BetStatsView, outcomes: Seq<u64>) -> int
    decreases outcomes.len(),
{
    if outcomes.len() == 0 {
        0
    } else {
        amount_on(stats, outcomes.drop_last()) + stats.outcome_total(
            Outcome { id: outcomes.last() },
        )
    }
}

/// Changing the amount on one outcome changes the sum by as much.
proof fn lemma_amount_on(
    stats: BetStatsView,
    next: BetStatsView,
    outcomes: Seq<u64>,
    outcome: Outcome,
    change: int,
)
    requires
        outcomes.no_duplicates(),
        next.outcome_total(outcome) == stats.outcome_total(outcome) + change,
        forall|o: Outcome|
            o != outcome ==> #[trigger] next.outcome_total(o) == stats.outcome_total(o),
    ensures
        amount_on(next, outcomes) == amount_on(stats, outcomes) + (if outcomes.contains(
            outcome.id,
        ) {
            change
        } else {
            0
        }),
    decreases outcomes.len(),
{
    if outcomes.len() > 0 {
        let shorter = outcomes.drop_last();
        let last = Outcome { id: outcomes.last() };
        lemma_amount_on(stats, next, shorter, outcome, change);
        if outcomes.contains(outcome.id) {
            let i = choose|i: int| 0 <= i < outcomes.len() && #[trigger] outcomes[i] == outcome.id;
            if i < shorter.len() {
                assert(shorter[i] == outcome.id);
            }
        }
        if shorter.contains(outcome.id) {
            let i = choose|i: int| 0 <= i < shorter.len() && #[trigger] shorter[i] == outcome.id;
            assert(outcomes[i] == outcome.id);
        }
        if last == outcome {
            assert(outcomes[outcomes.len() - 1] == outcome.id);
        } else {
            assert(next.outcome_total(last) == stats.outcome_total(last));
        }
    }
}

/// As long as the locked amount is the sum over the outcomes of a market, it
/// stays so when a bet is counted, and when one is uncounted that is not larger
/// than what stands on its outcome.
pub proof fn law_locked_is_the_sum_over_outcomes(
    stats: BetStatsView,
    outcomes: Seq<u64>,
    outcome: Outcome,
    amount: i128,
)
    requires
        outcomes.no_duplicates(),
        outcomes.contains(outcome.id),
        stats.total_amount_locked == amount_on(stats, outcomes),
    ensures
        stats.after_bet(outcome, amount) matches Ok(next) ==> next.total_amount_locked == amount_on(
            next,
            outcomes,
        ),
        0 <= amount <= stats.outcome_total(outcome) && amount <= stats.total_amount_locked ==> {
            let next = stats.after_cancel(outcome, amount)->Ok_0;
            &&& stats.after_cancel(outcome, amount) is Ok
            &&& next.total_amount_locked == amount_on(next, outcomes)
        },
{
    if stats.after_bet(outcome, amount) is Ok {
        let next = stats.after_bet(outcome, amount)->Ok_0;
        lemma_amount_on(stats, next, outcomes, outcome, amount as int);
    }
    if 0 <= amount <= stats.outcome_total(outcome) && amount <= stats.total_amount_locked {
        let next = stats.after_cancel(outcome, amount)->Ok_0;
        lemma_amount_on(stats, next, outcomes, outcome, -amount);
    }
}

/// The quotient of numbers that are not negative.
proof fn lemma_floor(x: int, d: int)
    requires
        x >= 0,
        d > 0,
    ensures
        0 <= crate::math::trunc_div(x, d) <= x,
        crate::math::trunc_div(x, d) * d <= x < (crate::math::trunc_div(x, d) + 1) * d,
{
    let q = crate::math::trunc_div(x, d);
    assert(q == x / d);
    assert(0 <= q <= x && q * d <= x < (q + 1) * d) by (nonlinear_arith)
        requires
            q == x / d,
            x >= 0,
            d > 0,
    ;
}

/// The fee is part of the pool, and the winners share the rest.
pub proof fn law_fee_is_part_of_the_pool(pool: int, fee_percentage: int)
    requires
        pool >= 0,
        0 <= fee_percentage <= 10_000,
    ensures
        0 <= crate::payout::distributable(pool, fee_percentage) <= pool,
{
    assert(0 <= pool * fee_percentage <= pool * 10_000) by (nonlinear_arith)
        requires
            pool >= 0,
            0 <= fee_percentage <= 10_000,
    ;
    lemma_floor(pool * fee_percentage, 10_000);
}

/// A payout is to the share of the winners at most as the bet is to all that was
/// bet on the winning outcomes.
proof fn lemma_payout_in_proportion(
    s: LedgerView,
    market_id: Symbol,
    user: Address,
    fee_percentage: i128,
)
    requires
        s.payout(market_id, user, fee_percentage) is Ok,
        s.bet(market_id, user)->0.status == BetStatus::Won,
        s.resolutions[market_id].total_pool >= 0,
        0 <= fee_percentage <= 10_000,
        0 <= s.bet(market_id, user)->0.amount,
        s.winning_total(market_id) matches Some(total) && total >= 0,
    ensures
        0 <= s.payout(market_id, user, fee_percentage)->Ok_0,
        s.payout(market_id, user, fee_percentage)->Ok_0 * s.winning_total(market_id)->0 <= s.bet(
            market_id,
            user,
        )->0.amount * crate::payout::distributable(
            s.resolutions[market_id].total_pool as int,
            fee_percentage as int,
        ),
{
    let amount = s.bet(market_id, user)->0.amount as int;
    let pool = s.resolutions[market_id].total_pool as int;
    let total = s.winning_total(market_id)->0 as int;
    let share = crate::payout::distributable(pool, fee_percentage as int);
    let paid = s.payout(market_id, user, fee_percentage)->Ok_0 as int;
    law_fee_is_part_of_the_pool(pool, fee_percentage as int);
    assert(amount * share >= 0) by (nonlinear_arith)
        requires
            amount >= 0,
            share >= 0,
    ;
    if paid != 0 {
        assert(total > 0);
        lemma_floor(amount * share, total);
    } else {
        assert(paid * total == 0) by (nonlinear_arith)
            requires
                paid == 0,
        ;
    }
}

/// A payout is not negative and not more than the pool less the fee, where the
/// bet is part of what stands on the winning outcomes.
pub proof fn law_payout_fits_the_pool(
    s: LedgerView,
    market_id: Symbol,
    user: Address,
    fee_percentage: i128,
)
    requires
        s.payout(market_id, user, fee_percentage) is Ok,
        s.bet(market_id, user)->0.status == BetStatus::Won,
        s.resolutions[market_id].total_pool >= 0,
        0 <= fee_percentage <= 10_000,
        s.winning_total(market_id) matches Some(total) && 0 <= s.bet(
            market_id,
            user,
        )->0.amount <= total,
    ensures
        0 <= s.payout(market_id, user, fee_percentage)->Ok_0 <= crate::payout::distributable(
            s.resolutions[market_id].total_pool as int,
            fee_percentage as int,
        ),
{
    let amount = s.bet(market_id, user)->0.amount as int;
    let pool = s.resolutions[market_id].total_pool as int;
    let total = s.winning_total(market_id)->0 as int;
    let share = crate::payout::distributable(pool, fee_percentage as int);
    let paid = s.payout(market_id, user, fee_percentage)->Ok_0 as int;
    law_fee_is_part_of_the_pool(pool, fee_percentage as int);
    lemma_payout_in_proportion(s, market_id, user, fee_percentage);
    if total > 0 {
        assert(paid <= share) by (nonlinear_arith)
            requires
                paid * total <= amount * share,
                amount <= total,
                share >= 0,
                total > 0,
        ;
    }
}

/// What the first `n` bettors of `market_id` have bet and won.
pub open spec fn won_amount(s: LedgerView, market_id: Symbol, n: int) -> int
    decreases n,
{
    if n <= 0 {
        0
    } else {
        won_amount(s, market_id, n - 1) + match s.bet(
            market_id,
            Address { id: s.registry(market_id)[n - 1] },
        ) {
            Some(bet) => if bet.status == BetStatus::Won {
                bet.amount as int
            } else {
                0
            },
            None => 0,
        }
    }
}

/// What the first `n` bettors of `market_id` are paid, bettor `i` at a fee of
/// `fees[i]` basis points.
pub open spec fn paid_out(s: LedgerView, market_id: Symbol, fees: Seq<i128>, n: int) -> int
    decreases n,
{
    if n <= 0 {
        0
    } else {
        paid_out(s, market_id, fees, n - 1) + match s.payout(
            market_id,
            Address { id: s.registry(market_id)[n - 1] },
            fees[n - 1],
        ) {
            Ok(payout) => payout as int,
            Err(_) => 0,
        }
    }
}

proof fn lemma_paid_out(s: LedgerView, market_id: Symbol, fees: Seq<i128>, n: int)
    requires
        0 <= n <= s.registry(market_id).len(),
        fees.len() == s.registry(market_id).len(),
        forall|i: int| 0 <= i < fees.len() ==> 0 <= #[trigger] fees[i] <= 10_000,
        s.resolutions[market_id].total_pool >= 0,
        forall|k: BetKey| #[trigger]
            s.bets.contains_key(k) && k.market_id == market_id && s.bets[k].status
                == BetStatus::Won ==> s.bets[k].amount >= 0,
        s.winning_total(market_id) matches Some(total) && total >= 0,
    ensures
        0 <= won_amount(s, market_id, n),
        0 <= paid_out(s, market_id, fees, n),
        paid_out(s, market_id, fees, n) * s.winning_total(market_id)->0 <= won_amount(
            s,
            market_id,
            n,
        ) * s.resolutions[market_id].total_pool,
    decreases n,
{
    let pool = s.resolutions[market_id].total_pool as int;
    let total = s.winning_total(market_id)->0 as int;
    if n > 0 {
        lemma_paid_out(s, market_id, fees, n - 1);
        let user = Address { id: s.registry(market_id)[n - 1] };
        let key = crate::ledger::bet_key(market_id, user);
        let fee = fees[n - 1];
        let so_far = paid_out(s, market_id, fees, n - 1);
        let part = paid_out(s, market_id, fees, n) - so_far;
        let won_so_far = won_amount(s, market_id, n - 1);
        let won = won_amount(s, market_id, n) - won_so_far;
        if s.bets.contains_key(key) && s.bets[key].status == BetStatus::Won {
            assert(won >= 0);
            if s.payout(market_id, user, fee) is Ok {
                lemma_payout_in_proportion(s, market_id, user, fee);
                law_fee_is_part_of_the_pool(pool, fee as int);
                let share = crate::payout::distributable(pool, fee as int);
                assert(won * share <= won * pool) by (nonlinear_arith)
                    requires
                        won >= 0,
                        share <= pool,
                ;
            } else {
                assert(part * total <= won * pool) by (nonlinear_arith)
                    requires
                        part == 0,
                        won >= 0,
                        pool >= 0,
                ;
            }
        } else {
            assert(part * total <= won * pool) by (nonlinear_arith)
                requires
                    part == 0,
                    won == 0,
            ;
        }
        assert((so_far + part) * total == so_far * total + part * total) by (nonlinear_arith);
        assert((won_so_far + won) * pool == won_so_far * pool + won * pool) by (nonlinear_arith);
    } else {
        assert(0 * total == 0 && 0 * pool == 0) by (nonlinear_arith);
    }
}

/// What the first `n` bettors of `market_id` have bet on `outcome` and won.
pub open spec fn won_on(s: LedgerView, market_id: Symbol, outcome: u64, n: int) -> int
    decreases n,
{
    if n <= 0 {
        0
    } else {
        won_on(s, market_id, outcome, n - 1) + match s.bet(
            market_id,
            Address { id: s.registry(market_id)[n - 1] },
        ) {
            Some(bet) => if bet.status == BetStatus::Won && bet.outcome.id == outcome {
                bet.amount as int
            } else {
                0
            },
            None => 0,
        }
    }
}

/// What the first `n` bettors of `market_id` have bet on outcomes of `outcomes`
/// and won.
spec fn won_among(s: LedgerView, market_id: Symbol, outcomes: Seq<u64>, n: int) -> int
    decreases n,
{
    if n <= 0 {
        0
    } else {
        won_among(s, market_id, outcomes, n - 1) + match s.bet(
            market_id,
            Address { id: s.registry(market_id)[n - 1] },
        ) {
            Some(bet) => if bet.status == BetStatus::Won && outcomes.contains(bet.outcome.id) {
                bet.amount as int
            } else {
                0
            },
            None => 0,
        }
    }
}

/// One more outcome adds what was won on it, unless it was there before.
proof fn lemma_won_among_push(
    s: LedgerView,
    market_id: Symbol,
    outcomes: Seq<u64>,
    outcome: u64,
    n: int,
)
    ensures
        won_among(s, market_id, outcomes.push(outcome), n) == won_among(
            s,
            market_id,
            outcomes,
            n,
        ) + (if outcomes.contains(outcome) {
            0
        } else {
            won_on(s, market_id, outcome, n)
        }),
    decreases n,
{
    if n > 0 {
        lemma_won_among_push(s, market_id, outcomes, outcome, n - 1);
        let longer = outcomes.push(outcome);
        assert(longer[outcomes.len() as int] == outcome);
        assert forall|id: u64| #[trigger]
            longer.contains(id) == (outcomes.contains(id) || id == outcome) by {
            if outcomes.contains(id) {
                let i = choose|i: int| 0 <= i < outcomes.len() && #[trigger] outcomes[i] == id;
                assert(longer[i] == id);
            }
            if longer.contains(id) {
                let i = choose|i: int| 0 <= i < longer.len() && #[trigger] longer[i] == id;
                if i < outcomes.len() {
                    assert(outcomes[i] == id);
                }
            }
        }
    }
}

/// Where what was won on each outcome is part of what stands on it, what was won
/// on several is part of their total.
proof fn lemma_won_within_total(s: LedgerView, market_id: Symbol, winners: Seq<u64>, k: int, n: int)
    requires
        0 <= k <= winners.len(),
        forall|i: int|
            0 <= i < winners.len() ==> won_on(s, market_id, #[trigger] winners[i], n)
                <= s.market_stats(market_id).outcome_total(Outcome { id: winners[i] }),
    ensures
        crate::payout::winning_total(s.market_stats(market_id), winners, k) matches Some(total)
            ==> won_among(s, market_id, winners.take(k), n) <= total,
    decreases k,
{
    if k > 0 {
        lemma_won_within_total(s, market_id, winners, k - 1, n);
        lemma_won_among_push(s, market_id, winners.take(k - 1), winners[k - 1], n);
        assert(winners.take(k) =~= winners.take(k - 1).push(winners[k - 1]));
    } else {
        lemma_won_among_none(s, market_id, winners.take(0), n);
    }
}

proof fn lemma_won_among_none(s: LedgerView, market_id: Symbol, outcomes: Seq<u64>, n: int)
    requires
        outcomes.len() == 0,
    ensures
        won_among(s, market_id, outcomes, n) == 0,
    decreases n,
{
    if n > 0 {
        lemma_won_among_none(s, market_id, outcomes, n - 1);
    }
}

/// Where all won bets are on outcomes of `winners`, what was won among those is
/// all that was won, and is not negative.
proof fn lemma_won_among_all(s: LedgerView, market_id: Symbol, winners: Seq<u64>, n: int)
    requires
        forall|k: BetKey| #[trigger]
            s.bets.contains_key(k) && k.market_id == market_id && s.bets[k].status
                == BetStatus::Won ==> s.bets[k].amount >= 0 && winners.contains(
                s.bets[k].outcome.id,
            ),
    ensures
        won_among(s, market_id, winners, n) == won_amount(s, market_id, n),
        won_amount(s, market_id, n) >= 0,
    decreases n,
{
    if n > 0 {
        lemma_won_among_all(s, market_id, winners, n - 1);
        let key = crate::ledger::bet_key(
            market_id,
            Address { id: s.registry(market_id)[n - 1] },
        );
        if s.bets.contains_key(key) && s.bets[key].status == BetStatus::Won {
            assert(winners.contains(s.bets[key].outcome.id));
        }
    }
}

/// Over all bettors of a market with a result, each with a fee of their own, the
/// payouts add up to at most the pool, however the divisions round: where every
/// won bet is on a winning outcome, and on each of these the won bets are part of
/// what stands on it.
pub proof fn law_payouts_fit_the_pool(s: LedgerView, market_id: Symbol, fees: Seq<i128>)
    requires
        fees.len() == s.registry(market_id).len(),
        forall|i: int| 0 <= i < fees.len() ==> 0 <= #[trigger] fees[i] <= 10_000,
        s.resolutions[market_id].total_pool >= 0,
        s.markets[market_id].winning_outcomes matches Some(winners) && {
            &&& forall|k: BetKey| #[trigger]
                s.bets.contains_key(k) && k.market_id == market_id && s.bets[k].status
                    == BetStatus::Won ==> s.bets[k].amount >= 0 && winners.contains(
                    s.bets[k].outcome.id,
                )
            &&& forall|i: int|
                0 <= i < winners.len() ==> won_on(
                    s,
                    market_id,
                    #[trigger] winners[i],
                    s.registry(market_id).len() as int,
                ) <= s.market_stats(market_id).outcome_total(Outcome { id: winners[i] })
        },
    ensures
        0 <= paid_out(s, market_id, fees, fees.len() as int)
            <= s.resolutions[market_id].total_pool,
{
    let n = fees.len() as int;
    let winners = s.markets[market_id].winning_outcomes->0;
    lemma_won_within_total(s, market_id, winners, winners.len() as int, n);
    assert(winners.take(winners.len() as int) =~= winners);
    lemma_won_among_all(s, market_id, winners, n);
    if s.winning_total(market_id) is None || s.winning_total(market_id)->0 == 0 {
        lemma_nothing_paid_out(s, market_id, fees, n);
    } else {
        lemma_paid_out(s, market_id, fees, n);
        let pool = s.resolutions[market_id].total_pool as int;
        let total = s.winning_total(market_id)->0 as int;
        let paid = paid_out(s, market_id, fees, n);
        let won = won_amount(s, market_id, n);
        assert(paid <= pool) by (nonlinear_arith)
            requires
                paid * total <= won * pool,
                won <= total,
                pool >= 0,
                total > 0,
        ;
    }
}

/// Where nothing stands on the winning outcomes, or it cannot be summed, nobody
/// is paid.
proof fn lemma_nothing_paid_out(s: LedgerView, market_id: Symbol, fees: Seq<i128>, n: int)
    requires
        s.winning_total(market_id) is None || s.winning_total(market_id) == Some(0i128),
    ensures
        paid_out(s, market_id, fees, n) == 0,
    decreases n,
{
    if n > 0 {
        lemma_nothing_paid_out(s, market_id, fees, n - 1);
    }
}

/// Where no outcome is named twice, what stands on the winning outcomes is the
/// sum over them.
pub proof fn law_winning_total_is_the_sum_over_winners(
    stats: BetStatsView,
    winners: Seq<u64>,
    n: int,
)
    requires
        winners.no_duplicates(),
        0 <= n <= winners.len(),
    ensures
        crate::payout::winning_total(stats, winners, n) matches Some(total) ==> total == amount_on(
            stats,
            winners.take(n),
        ),
    decreases n,
{
    if n > 0 {
        law_winning_total_is_the_sum_over_winners(stats, winners, n - 1);
        crate::settlement::lemma_take_one_more(winners, n - 1);
        assert(winners.take(n).drop_last() =~= winners.take(n - 1));
    }
}

/// Where the amount on an outcome is part of the locked amount, and a hundred
/// times the locked amount fits, the implied probability lies between nought and
/// a hundred percent and the multiplier of an outcome with bets is not below one.
pub proof fn law_analytics_are_in_range(stats: BetStatsView, outcome: Outcome)
    requires
        0 <= stats.outcome_total(outcome) <= stats.total_amount_locked,
        crate::math::fits(stats.total_amount_locked * 100),
    ensures
        0 <= stats.implied_probability(outcome) <= 100,
        stats.outcome_total(outcome) > 0 ==> stats.payout_multiplier(outcome) >= 100,
{
    let part = stats.outcome_total(outcome) as int;
    let whole = stats.total_amount_locked as int;
    if whole > 0 {
        lemma_floor(part * 100, whole);
        let percent = crate::math::trunc_div(part * 100, whole);
        assert(percent <= 100) by (nonlinear_arith)
            requires
                percent * whole <= part * 100,
                part <= whole,
                whole > 0,
        ;
    }
    if part > 0 {
        lemma_floor(whole * 100, part);
        let multiple = crate::math::trunc_div(whole * 100, part);
        assert(multiple >= 100) by (nonlinear_arith)
            requires
                whole * 100 < (multiple + 1) * part,
                part <= whole,
                part > 0,
        ;
    }
}

/// The implied probabilities of `outcomes`, added up.
pub open spec fn probability_of(stats: BetStatsView, outcomes: Seq<u64>) -> int
    decreases outcomes.len(),
{
    if outcomes.len() == 0 {
        0
    } else {
        probability_of(stats, outcomes.drop_last()) + stats.implied_probability(
            Outcome { id: outcomes.last() },
        )
    }
}

proof fn lemma_probabilities(stats: BetStatsView, outcomes: Seq<u64>)
    requires
        forall|o: Outcome| #[trigger] stats.outcome_total(o) >= 0,
        stats.total_amount_locked >= 0,
    ensures
        0 <= probability_of(stats, outcomes),
        probability_of(stats, outcomes) * stats.total_amount_locked <= amount_on(stats, outcomes)
            * 100,
        stats.total_amount_locked == 0 ==> probability_of(stats, outcomes) == 0,
    decreases outcomes.len(),
{
    let whole = stats.total_amount_locked as int;
    if outcomes.len() > 0 {
        lemma_probabilities(stats, outcomes.drop_last());
        let last = Outcome { id: outcomes.last() };
        let part = stats.outcome_total(last) as int;
        let percent = stats.implied_probability(last) as int;
        if whole > 0 {
            lemma_floor(part * 100, whole);
        }
        assert(percent * whole <= part * 100) by {
            if percent == 0 || whole == 0 {
                assert(percent * whole == 0) by (nonlinear_arith)
                    requires
                        percent == 0 || whole == 0,
                ;
            }
        }
        let so_far = probability_of(stats, outcomes.drop_last());
        assert((so_far + percent) * whole == so_far * whole + percent * whole)
            by (nonlinear_arith);
    } else {
        assert(0 * whole == 0) by (nonlinear_arith);
    }
}

/// The implied probabilities of different outcomes add up to at most a hundred
/// percent, where what stands on them is part of the locked amount.
pub proof fn law_probabilities_add_up(stats: BetStatsView, outcomes: Seq<u64>)
    requires
        forall|o: Outcome| #[trigger] stats.outcome_total(o) >= 0,
        0 <= amount_on(stats, outcomes) <= stats.total_amount_locked,
    ensures
        0 <= probability_of(stats, outcomes) <= 100,
{
    lemma_probabilities(stats, outcomes);
    let whole = stats.total_amount_locked as int;
    let all = probability_of(stats, outcomes);
    let amount = amount_on(stats, outcomes);
    if whole > 0 {
        assert(all <= 100) by (nonlinear_arith)
            requires
                all * whole <= amount * 100,
                amount <= whole,
                whole > 0,
        ;
    }
}

} // verus!
