//! That every operation keeps the books of a ledger in order.
use vstd::prelude::*;

use crate::ledger::LedgerView;
use crate::types::{
    Address, BatchToken, Bet, BetKey, BetLimits, Outcome, Symbol,
};

verus! {

/// Storing a bet keeps the books in order.
pub proof fn law_storing_keeps_books(s: LedgerView, bet: Bet)
    requires
        s.well_formed(),
        s.with_bet(bet) is Ok,
    ensures
        s.with_bet(bet)->Ok_0.well_formed(),
{
    let t = s.with_bet(bet)->Ok_0;
    crate::books::lemma_enlisted(s.registries, t.registries, bet.market_id, bet.user);
    assert forall|m: Symbol| #[trigger] t.effective_limits(m) == s.effective_limits(m) by {}
}

/// Striking a bet keeps the books in order.
pub proof fn law_striking_keeps_books(s: LedgerView, market_id: Symbol, user: Address)
    requires
        s.well_formed(),
    ensures
        s.without_bet(market_id, user).well_formed(),
{
    let t = s.without_bet(market_id, user);
    lemma_same_books(s, t);
}

/// What a ledger keeps beside the bets, their bettors and the limits has no
/// part in the books.
pub proof fn lemma_same_books(s: LedgerView, t: LedgerView)
    requires
        s.well_formed(),
        t.registries == s.registries,
        t.global_limits == s.global_limits,
        t.event_limits == s.event_limits,
        forall|k: BetKey| #[trigger]
            t.bets.contains_key(k) ==> s.bets.contains_key(k) && t.bets[k].key()
                == s.bets[k].key(),
    ensures
        t.well_formed(),
{
    assert forall|m: Symbol| #[trigger] t.registry(m) == s.registry(m) by {}
    assert forall|m: Symbol| #[trigger] t.effective_limits(m) == s.effective_limits(m) by {}
}

/// Placing a bet keeps the books in order.
pub proof fn law_placing_keeps_books(
    s: LedgerView,
    user: Address,
    market_id: Symbol,
    outcome: Outcome,
    amount: i128,
    max_fee_bps: i128,
)
    requires
        s.well_formed(),
        s.placing(user, market_id, outcome, amount, max_fee_bps) is Ok,
    ensures
        s.placing(user, market_id, outcome, amount, max_fee_bps)->Ok_0.well_formed(),
{
    let t = s.placing(user, market_id, outcome, amount, max_fee_bps)->Ok_0;
    let bet = s.new_bet(user, market_id, outcome, amount);
    law_storing_keeps_books(s, bet);
    lemma_same_books(s.with_bet(bet)->Ok_0, t);
}

/// Cancelling a bet keeps the books in order.
pub proof fn law_cancelling_keeps_books(s: LedgerView, user: Address, market_id: Symbol)
    requires
        s.well_formed(),
        s.cancelling(user, market_id) is Ok,
    ensures
        s.cancelling(user, market_id)->Ok_0.well_formed(),
{
    let t = s.cancelling(user, market_id)->Ok_0;
    let bet = s.bet(market_id, user)->0;
    let cancelled = bet.with_status(crate::types::BetStatus::Cancelled);
    law_storing_keeps_books(s, cancelled);
    lemma_same_books(s.with_bet(cancelled)->Ok_0, t);
}

/// Settling the bets on a market keeps the books in order.
pub proof fn law_resolving_keeps_books(s: LedgerView, market_id: Symbol, winners: Seq<u64>)
    requires
        s.well_formed(),
    ensures
        s.resolving(market_id, winners).well_formed(),
{
    lemma_same_books(s, s.resolving(market_id, winners));
}

/// Paying back the bets on a market keeps the books in order.
pub proof fn law_refunding_keeps_books(s: LedgerView, market_id: Symbol)
    requires
        s.well_formed(),
        s.refunding(market_id) is Ok,
    ensures
        s.refunding(market_id)->Ok_0.well_formed(),
{
    let t = s.refunding(market_id)->Ok_0;
    crate::settlement::lemma_refund_steps(s, market_id, s.registry(market_id).len() as int);
    assert forall|k: BetKey| #[trigger] t.bets.contains_key(k) implies s.bets.contains_key(k)
        && t.bets[k].key() == s.bets[k].key() by {
        assert(t.bets.dom().contains(k));
        assert(s.bets.dom().contains(k));
    }
    lemma_same_books(s, t);
}

/// Limits for all markets that may be configured keep the books in order.
pub proof fn law_global_limits_keep_books(s: LedgerView, limits: BetLimits)
    requires
        s.well_formed(),
        crate::limits::limits_check(limits) is Ok,
    ensures
        s.with_global_limits(limits).well_formed(),
{
    let t = s.with_global_limits(limits);
    assert forall|m: Symbol| #[trigger] t.registry(m) == s.registry(m) by {}
    assert forall|m: Symbol| crate::limits::limits_check(#[trigger] t.effective_limits(m)) is Ok by {
        assert(crate::limits::limits_check(s.effective_limits(m)) is Ok);
    }
}

/// Limits for one market that may be configured keep the books in order.
pub proof fn law_event_limits_keep_books(s: LedgerView, market_id: Symbol, limits: BetLimits)
    requires
        s.well_formed(),
        crate::limits::limits_check(limits) is Ok,
    ensures
        s.with_event_limits(market_id, limits).well_formed(),
{
    let t = s.with_event_limits(market_id, limits);
    assert forall|m: Symbol| #[trigger] t.registry(m) == s.registry(m) by {}
    assert forall|m: Symbol| crate::limits::limits_check(#[trigger] t.effective_limits(m)) is Ok by {
        assert(crate::limits::limits_check(s.effective_limits(m)) is Ok);
    }
}

/// The writes of a batch keep the books in order.
proof fn lemma_writes_keep_books(
    paid: LedgerView,
    base: LedgerView,
    user: Address,
    bets: Seq<(Symbol, Outcome, i128)>,
    n: int,
)
    requires
        paid.well_formed(),
        paid.registries == base.registries,
        0 <= n <= bets.len(),
        base.requests_check(user, bets, bets.len() as int) is Ok,
        base.writes_check(user, bets, bets.len() as int) is Ok,
    ensures
        paid.after_writes(base, user, bets, n).well_formed(),
    decreases n,
{
    if n > 0 {
        lemma_writes_keep_books(paid, base, user, bets, n - 1);
        crate::batch::lemma_writes_leave_room(paid, base, user, bets, n - 1);
        crate::batch::lemma_writes_ok(base, user, bets, n - 1, bets.len() as int);
        let s = paid.after_writes(base, user, bets, n - 1);
        let t = paid.after_writes(base, user, bets, n);
        let bet = base.new_bet(user, bets[n - 1].0, bets[n - 1].1, bets[n - 1].2);
        law_storing_keeps_books(s, bet);
        lemma_same_books(s.with_bet(bet)->Ok_0, t);
    }
}

/// Placing a batch of bets keeps the books in order.
pub proof fn law_batch_keeps_books(
    s: LedgerView,
    user: Address,
    bets: Seq<(Symbol, Outcome, i128)>,
    max_fee_bps: i128,
    token: BatchToken,
)
    requires
        s.well_formed(),
        s.placing_batch(user, bets, max_fee_bps, token) is Ok,
    ensures
        s.placing_batch(user, bets, max_fee_bps, token)->Ok_0.well_formed(),
{
    let n = bets.len() as int;
    let t = s.placing_batch(user, bets, max_fee_bps, token)->Ok_0;
    let balances = s.locking(user, crate::batch::total_amount(bets, n) as i128)->Ok_0;
    let paid = s.batch_paid(user, bets, balances);
    lemma_same_books(s, paid);
    lemma_writes_keep_books(paid, s, user, bets, n);
    lemma_same_books(paid.after_writes(s, user, bets, n), t);
}

} // verus!
