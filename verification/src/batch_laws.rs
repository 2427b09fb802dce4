//! What placing several bets at once does to the entries of a ledger.
use vstd::prelude::*;

use crate::error::Error;
use crate::ledger::{Effect, Event, Ledger, LedgerView, TtlEntry};
use crate::manager::BetManager;
use crate::types::{
    Address, BatchKey, BatchToken, Bet, BetStatus, Outcome, Symbol, UserStakeKey,
};

verus! {

/// The sum of the amounts of the first `n` requests.
pub open spec fn asked_for(bets: Seq<(Symbol, Outcome, i128)>, n: int) -> int
    decreases n,
{
    if n <= 0 {
        0
    } else {
        bets[n - 1].2 + asked_for(bets, n - 1)
    }
}

/// Whether request `i` is on a market that no request before it names, is within
/// the bets that the ledger still takes, may be made, and leaves a sum of amounts
/// that can be written down.
pub open spec fn request_may_be_placed(
    s: LedgerView,
    user: Address,
    bets: Seq<(Symbol, Outcome, i128)>,
    i: int,
) -> bool {
    &&& forall|j: int| 0 <= j < i ==> (#[trigger] bets[j]).0 != bets[i].0
    &&& s.bets_left matches Some(left) ==> i < left
    &&& crate::rule_laws::may_bet(s, user, bets[i].0, bets[i].1, bets[i].2)
    &&& crate::rule_laws::representable(asked_for(bets, i + 1))
}

/// The error of a request that may not be placed.
pub open spec fn why_not_request(
    s: LedgerView,
    user: Address,
    bets: Seq<(Symbol, Outcome, i128)>,
    i: int,
) -> Error {
    if exists|j: int| 0 <= j < i && (#[trigger] bets[j]).0 == bets[i].0 {
        Error::InvalidInput
    } else if s.bets_left matches Some(left) && i >= left {
        Error::RateLimitExceeded
    } else if !crate::rule_laws::may_bet(s, user, bets[i].0, bets[i].1, bets[i].2) {
        crate::rule_laws::why_no_bet(s, bets[i].0, bets[i].1, bets[i].2)
    } else {
        Error::InvalidInput
    }
}

/// Whether everything that request `i` adds to can take it.
pub open spec fn request_can_be_filed(
    s: LedgerView,
    user: Address,
    bets: Seq<(Symbol, Outcome, i128)>,
    i: int,
) -> bool {
    crate::bet_laws::can_be_filed(s, user, bets[i].0, bets[i].1, bets[i].2)
}

/// The error of a request that cannot be filed.
pub open spec fn why_not_filed(
    s: LedgerView,
    user: Address,
    bets: Seq<(Symbol, Outcome, i128)>,
    i: int,
) -> Error {
    let (market_id, outcome, amount) = bets[i];
    let bettors = crate::rule_laws::listed(s, market_id);
    let before = crate::rule_laws::counted(s, market_id);
    if !bettors.contains(user.id) && bettors.len() >= 0xffff_ffff {
        Error::InvalidInput
    } else if !crate::rule_laws::representable(
        crate::rule_laws::staked_so_far(s, market_id, user) + amount,
    ) {
        Error::Overflow
    } else if !crate::rule_laws::can_count_one_more(before, outcome, amount) {
        crate::rule_laws::why_not_counted(before, outcome, amount)
    } else {
        Error::InvalidInput
    }
}

/// The part of a call for a batch that is looked at before its requests.
pub open spec fn may_place_batch(
    s: LedgerView,
    user: Address,
    bets: Seq<(Symbol, Outcome, i128)>,
    max_fee_bps: i128,
    token: BatchToken,
) -> bool {
    &&& !s.context.locks.place_bets
    &&& !s.context.betting_paused
    &&& !s.batches.contains_key(BatchKey { user, token })
    &&& max_fee_bps > 0 ==> crate::rule_laws::fee_in_force(s.context) <= max_fee_bps
    &&& 1 <= bets.len() <= 50
    &&& max_fee_bps != 0 ==> crate::rule_laws::fee_for_slippage(s.context) <= max_fee_bps
}

proof fn lemma_sums_agree(bets: Seq<(Symbol, Outcome, i128)>, n: int)
    ensures
        crate::batch::total_amount(bets, n) == asked_for(bets, n),
    decreases n,
{
    if n > 0 {
        lemma_sums_agree(bets, n - 1);
    }
}

proof fn lemma_request(s: LedgerView, user: Address, bets: Seq<(Symbol, Outcome, i128)>, i: int)
    requires
        0 <= i < bets.len(),
    ensures
        s.request_check(user, bets, i) is Ok <==> request_may_be_placed(s, user, bets, i),
        s.request_check(user, bets, i) matches Err(e) ==> e == why_not_request(s, user, bets, i),
{
    lemma_sums_agree(bets, i + 1);
    let (market_id, outcome, amount) = bets[i];
    assert(s.admission(user, market_id, outcome, amount) is Ok <==> crate::rule_laws::may_bet(
        s,
        user,
        market_id,
        outcome,
        amount,
    ));
}

proof fn lemma_requests(s: LedgerView, user: Address, bets: Seq<(Symbol, Outcome, i128)>, n: int)
    requires
        0 <= n <= bets.len(),
    ensures
        s.requests_check(user, bets, n) is Ok <==> forall|i: int|
            0 <= i < n ==> request_may_be_placed(s, user, bets, i),
        s.requests_check(user, bets, n) matches Err(e) ==> exists|i: int|
            0 <= i < n && !#[trigger] request_may_be_placed(s, user, bets, i) && e
                == why_not_request(s, user, bets, i) && forall|j: int|
                0 <= j < i ==> request_may_be_placed(s, user, bets, j),
    decreases n,
{
    if n > 0 {
        lemma_requests(s, user, bets, n - 1);
        lemma_request(s, user, bets, n - 1);
    }
}

proof fn lemma_filing(s: LedgerView, user: Address, bets: Seq<(Symbol, Outcome, i128)>, n: int)
    requires
        0 <= n <= bets.len(),
    ensures
        s.writes_check(user, bets, n) is Ok <==> forall|i: int|
            0 <= i < n ==> request_can_be_filed(s, user, bets, i),
        s.writes_check(user, bets, n) matches Err(e) ==> exists|i: int|
            0 <= i < n && !#[trigger] request_can_be_filed(s, user, bets, i) && e == why_not_filed(
                s,
                user,
                bets,
                i,
            ) && forall|j: int| 0 <= j < i ==> request_can_be_filed(s, user, bets, j),
    decreases n,
{
    if n > 0 {
        lemma_filing(s, user, bets, n - 1);
        let write = s.entry_write(user, bets[n - 1]);
        assert(write is Ok <==> request_can_be_filed(s, user, bets, n - 1));
    }
}

/// A batch is placed whenever the call is in order, every request may be placed
/// and filed, and the funds for all of them are there; otherwise nothing changes.
pub proof fn law_when_a_batch_is_placed(
    env: &mut Ledger,
    user: Address,
    bets: Vec<(Symbol, Outcome, i128)>,
    max_fee_bps: i128,
    token: BatchToken,
    r: Result<Vec<Bet>, Error>,
)
    requires
        call_ensures(BetManager::place_bets, (env, user, bets, max_fee_bps, token), r),
    ensures
        ({
            let s = old(env)@;
            let n = bets@.len() as int;
            &&& r is Ok <==> {
                &&& may_place_batch(s, user, bets@, max_fee_bps, token)
                &&& forall|i: int| 0 <= i < n ==> request_may_be_placed(s, user, bets@, i)
                &&& forall|i: int| 0 <= i < n ==> request_can_be_filed(s, user, bets@, i)
                &&& !s.context.locks.lock_funds
                &&& crate::rule_laws::can_transfer(
                    s,
                    user,
                    s.context.contract,
                    asked_for(bets@, n) as i128,
                )
            }
            &&& r is Err ==> final(env)@ == s
        }),
{
    let s = old(env)@;
    let n = bets@.len() as int;
    lemma_requests(s, user, bets@, n);
    lemma_filing(s, user, bets@, n);
    lemma_sums_agree(bets@, n);
    if n > 0 && request_may_be_placed(s, user, bets@, n - 1) {
        assert(crate::rule_laws::representable(asked_for(bets@, n)));
    }
}

/// The error of a batch that is not placed is the one of the first reason against
/// it. Among the requests, that is the reason against the first that may not be
/// placed, and with all in order the one against the first that cannot be filed.
pub proof fn law_why_a_batch_is_not_placed(
    env: &mut Ledger,
    user: Address,
    bets: Vec<(Symbol, Outcome, i128)>,
    max_fee_bps: i128,
    token: BatchToken,
    r: Result<Vec<Bet>, Error>,
    i: int,
)
    requires
        call_ensures(BetManager::place_bets, (env, user, bets, max_fee_bps, token), r),
        r is Err,
    ensures
        ({
            let s = old(env)@;
            let n = bets@.len() as int;
            let e = r->Err_0;
            let amount = asked_for(bets@, n) as i128;
            let funds = !s.context.locks.lock_funds && crate::rule_laws::can_transfer(
                s,
                user,
                s.context.contract,
                amount,
            );
            let in_order = forall|j: int| 0 <= j < n ==> request_may_be_placed(s, user, bets@, j);
            let started = may_place_batch(s, user, bets@, max_fee_bps, token);
            &&& !started ==> e == (if s.context.locks.place_bets {
                Error::InvalidState
            } else if s.context.betting_paused {
                Error::CircuitBreakerOpen
            } else if s.batches.contains_key(BatchKey { user, token }) {
                Error::IdempotentBatchAlreadyApplied
            } else if max_fee_bps > 0 && crate::rule_laws::fee_in_force(s.context) > max_fee_bps {
                Error::FeeExceedsMax
            } else if bets@.len() == 0 {
                Error::BatchEmpty
            } else if bets@.len() > 50 {
                Error::BatchSizeExceeded
            } else {
                Error::FeeExceedsMax
            })
            &&& started && 0 <= i < n && !request_may_be_placed(s, user, bets@, i) && (forall|
                j: int,
            |
                0 <= j < i ==> request_may_be_placed(s, user, bets@, j)) ==> e == why_not_request(
                s,
                user,
                bets@,
                i,
            )
            &&& started && in_order && !funds ==> e == crate::rule_laws::why_no_transfer(
                s,
                s.context.locks.lock_funds,
                user,
                amount,
            )
            &&& started && in_order && funds && 0 <= i < n && !request_can_be_filed(
                s,
                user,
                bets@,
                i,
            ) && (forall|j: int| 0 <= j < i ==> request_can_be_filed(s, user, bets@, j)) ==> e
                == why_not_filed(s, user, bets@, i)
        }),
{
    let s = old(env)@;
    let n = bets@.len() as int;
    lemma_requests(s, user, bets@, n);
    lemma_filing(s, user, bets@, n);
    lemma_sums_agree(bets@, n);
    if n > 0 && request_may_be_placed(s, user, bets@, n - 1) {
        assert(crate::rule_laws::representable(asked_for(bets@, n)));
    }
}

/// A batch is placed under a fee that its user has agreed to: a bound above zero is
/// not passed by the fee in force, and a bound other than zero not by the fee that
/// slippage is held against.
pub proof fn law_placed_batches_keep_the_fee_bound(
    env: &mut Ledger,
    user: Address,
    bets: Vec<(Symbol, Outcome, i128)>,
    max_fee_bps: i128,
    token: BatchToken,
    r: Result<Vec<Bet>, Error>,
)
    requires
        call_ensures(BetManager::place_bets, (env, user, bets, max_fee_bps, token), r),
        r is Ok,
    ensures
        max_fee_bps > 0 ==> crate::rule_laws::fee_in_force(old(env)@.context) <= max_fee_bps,
        max_fee_bps != 0 ==> crate::rule_laws::fee_for_slippage(old(env)@.context) <= max_fee_bps,
{
}

/// That request `i` has come on record between `s` and `t`.
pub open spec fn request_filed(
    s: LedgerView,
    t: LedgerView,
    user: Address,
    bets: Seq<(Symbol, Outcome, i128)>,
    i: int,
) -> bool {
    crate::bet_laws::bet_filed(s, t, user, bets[i].0, bets[i].1, bets[i].2)
}

/// Whether one of the first `n` requests names `market_id`.
pub open spec fn named_by(
    bets: Seq<(Symbol, Outcome, i128)>,
    n: int,
    market_id: Symbol,
) -> bool {
    exists|i: int| 0 <= i < n && (#[trigger] bets[i]).0 == market_id
}

/// The effects that request `i` asks for.
pub open spec fn effects_of_request(
    s: LedgerView,
    user: Address,
    bets: Seq<(Symbol, Outcome, i128)>,
    i: int,
) -> (Effect, Effect) {
    (
        Effect::ExtendTtl {
            entry: TtlEntry::UserStake {
                stake: UserStakeKey { user, market_id: bets[i].0 },
            },
            ledgers: s.context.market_ttl_ledgers,
        },
        Effect::Publish {
            event: Event::BetPlaced {
                market_id: bets[i].0,
                user,
                outcome: bets[i].1,
                amount: bets[i].2,
            },
        },
    )
}

/// One write puts its bet on record and leaves every other market as it was.
proof fn lemma_one_write(
    base: LedgerView,
    s: LedgerView,
    user: Address,
    request: (Symbol, Outcome, i128),
    other: Symbol,
)
    requires
        base.markets.contains_key(request.0),
        base.entry_write(user, request) is Ok,
        crate::bet_laws::market_untouched(base, s, request.0),
        s.context == base.context,
    ensures
        ({
            let t = s.after_write(base.entry_write(user, request)->Ok_0);
            &&& crate::bet_laws::bet_filed(base, t, user, request.0, request.1, request.2)
            &&& other != request.0 ==> crate::bet_laws::market_untouched(s, t, other)
        }),
{
    let (m, outcome, amount) = request;
    let t = s.after_write(base.entry_write(user, request)->Ok_0);
    assert(crate::rule_laws::listed(s, m) == crate::rule_laws::listed(base, m));
    assert(t.registries == s.registries_with(m, user)->Ok_0);
    assert(s.registries_with(m, user) is Ok);
    assert(crate::rule_laws::listed(t, m) == crate::bet_laws::listed_with(
        crate::rule_laws::listed(base, m),
        user.id,
    ));
    assert(crate::rule_laws::staked_so_far(t, m, user) == crate::rule_laws::staked_so_far(
        base,
        m,
        user,
    ) + amount);
    assert(crate::rule_laws::counts_one_more(
        crate::rule_laws::counted(base, m),
        crate::rule_laws::counted(t, m),
        outcome,
        amount,
    ));
    assert(crate::bet_laws::stake_added(base.markets[m], t.markets[m], user, outcome, amount));
    assert forall|other: Address| other != user implies #[trigger] crate::rule_laws::on_record(
        t,
        m,
        other,
    ) == crate::rule_laws::on_record(base, m, other) by {
        assert(crate::rule_laws::on_record(s, m, other) == crate::rule_laws::on_record(
            base,
            m,
            other,
        ));
    }
    assert forall|other: Address| other != user implies #[trigger] crate::rule_laws::staked_so_far(
        t,
        m,
        other,
    ) == crate::rule_laws::staked_so_far(base, m, other) by {
        assert(crate::rule_laws::staked_so_far(s, m, other) == crate::rule_laws::staked_so_far(
            base,
            m,
            other,
        ));
    }
}

/// What the first `n` writes of a batch come to.
proof fn lemma_writes(
    paid: LedgerView,
    base: LedgerView,
    user: Address,
    bets: Seq<(Symbol, Outcome, i128)>,
    n: int,
)
    requires
        0 <= n <= bets.len(),
        forall|i: int|
            0 <= i < bets.len() ==> #[trigger] request_may_be_placed(base, user, bets, i),
        base.writes_check(user, bets, bets.len() as int) is Ok,
        paid.context == base.context,
        paid.bets == base.bets,
        paid.registries == base.registries,
        paid.user_stakes == base.user_stakes,
        paid.stats == base.stats,
        paid.markets == base.markets,
    ensures
        ({
            let t = paid.after_writes(base, user, bets, n);
            let p = paid.effects.len() as int;
            &&& forall|i: int| 0 <= i < n ==> #[trigger] request_filed(base, t, user, bets, i)
            &&& forall|m: Symbol|
                !named_by(bets, n, m) ==> #[trigger] crate::bet_laws::market_untouched(base, t, m)
            &&& t.effects.len() == p + 2 * n
            &&& t.effects.take(p) == paid.effects
            &&& forall|i: int|
                0 <= i < n ==> (
                t.effects[p + 2 * i],
                t.effects[p + 2 * i + 1],
                ) == #[trigger] effects_of_request(base, user, bets, i)
            &&& (LedgerView {
                bets: paid.bets,
                registries: paid.registries,
                user_stakes: paid.user_stakes,
                stats: paid.stats,
                markets: paid.markets,
                effects: paid.effects,
                ..t
            }) == paid
        }),
    decreases n,
{
    let p = paid.effects.len() as int;
    let t = paid.after_writes(base, user, bets, n);
    if n > 0 {
        lemma_writes(paid, base, user, bets, n - 1);
        let s = paid.after_writes(base, user, bets, n - 1);
        let market_id = bets[n - 1].0;
        assert(request_may_be_placed(base, user, bets, n - 1));
        crate::batch::lemma_writes_ok(base, user, bets, n - 1, bets.len() as int);
        assert(!named_by(bets, n - 1, market_id));
        assert(crate::bet_laws::market_untouched(base, s, market_id));
        lemma_one_write(base, s, user, bets[n - 1], market_id);
        assert(request_filed(base, t, user, bets, n - 1));
        assert forall|i: int| 0 <= i < n implies #[trigger] request_filed(
            base,
            t,
            user,
            bets,
            i,
        ) by {
            if i < n - 1 {
                assert(bets[i].0 != market_id);
                lemma_one_write(base, s, user, bets[n - 1], bets[i].0);
                lemma_still_filed(base, s, t, user, bets, i);
            }
        }
        assert forall|m: Symbol| !named_by(bets, n, m) implies #[trigger]
            crate::bet_laws::market_untouched(base, t, m) by {
            assert(m != market_id) by {
                assert(bets[n - 1].0 == market_id);
            }
            assert(!named_by(bets, n - 1, m));
            assert(crate::bet_laws::market_untouched(base, s, m));
            lemma_one_write(base, s, user, bets[n - 1], m);
            lemma_untouched_twice(base, s, t, m);
        }
        assert(t.effects.take(p) =~= s.effects.take(p));
        assert forall|i: int| 0 <= i < n implies (
            t.effects[p + 2 * i],
            t.effects[p + 2 * i + 1],
        ) == #[trigger] effects_of_request(base, user, bets, i) by {
            if i < n - 1 {
                assert(effects_of_request(base, user, bets, i) == (
                    s.effects[p + 2 * i],
                    s.effects[p + 2 * i + 1],
                ));
            }
        }
    } else {
        assert(paid.effects.take(p) =~= paid.effects);
    }
}

proof fn lemma_untouched_twice(a: LedgerView, b: LedgerView, c: LedgerView, m: Symbol)
    requires
        crate::bet_laws::market_untouched(a, b, m),
        crate::bet_laws::market_untouched(b, c, m),
    ensures
        crate::bet_laws::market_untouched(a, c, m),
{
    assert forall|user: Address| #[trigger]
        crate::rule_laws::on_record(c, m, user) == crate::rule_laws::on_record(a, m, user) by {
        assert(crate::rule_laws::on_record(b, m, user) == crate::rule_laws::on_record(a, m, user));
    }
    assert forall|user: Address| #[trigger]
        crate::rule_laws::staked_so_far(c, m, user) == crate::rule_laws::staked_so_far(
            a,
            m,
            user,
        ) by {
        assert(crate::rule_laws::staked_so_far(b, m, user) == crate::rule_laws::staked_so_far(
            a,
            m,
            user,
        ));
    }
}

proof fn lemma_still_filed(
    base: LedgerView,
    s: LedgerView,
    t: LedgerView,
    user: Address,
    bets: Seq<(Symbol, Outcome, i128)>,
    i: int,
)
    requires
        request_filed(base, s, user, bets, i),
        crate::bet_laws::market_untouched(s, t, bets[i].0),
    ensures
        request_filed(base, t, user, bets, i),
{
    let m = bets[i].0;
    assert(crate::rule_laws::on_record(t, m, user) == crate::rule_laws::on_record(s, m, user));
    assert(crate::rule_laws::staked_so_far(t, m, user) == crate::rule_laws::staked_so_far(
        s,
        m,
        user,
    ));
    assert forall|other: Address| other != user implies #[trigger] crate::rule_laws::on_record(
        t,
        m,
        other,
    ) == crate::rule_laws::on_record(base, m, other) by {
        assert(crate::rule_laws::on_record(s, m, other) == crate::rule_laws::on_record(
            base,
            m,
            other,
        ));
    }
    assert forall|other: Address| other != user implies #[trigger] crate::rule_laws::staked_so_far(
        t,
        m,
        other,
    ) == crate::rule_laws::staked_so_far(base, m, other) by {
        assert(crate::rule_laws::staked_so_far(s, m, other) == crate::rule_laws::staked_so_far(
            base,
            m,
            other,
        ));
    }
}

/// A placed batch hands its bets back and has every one of them on record: each
/// market that it names has the user's vote, stake and amount on top of what it
/// had, and statistics with one bet more. Every other market is as it was. The sum
/// of the amounts has gone from the user to the contract, the ledger takes as many
/// bets less, and the batch is remembered.
pub proof fn law_what_a_placed_batch_does(
    env: &mut Ledger,
    user: Address,
    bets: Vec<(Symbol, Outcome, i128)>,
    max_fee_bps: i128,
    token: BatchToken,
    r: Result<Vec<Bet>, Error>,
)
    requires
        call_ensures(BetManager::place_bets, (env, user, bets, max_fee_bps, token), r),
        r is Ok,
    ensures
        ({
            let (s, t) = (old(env)@, final(env)@);
            let n = bets@.len() as int;
            let p = s.effects.len() as int;
            let key = BatchKey { user, token };
            let amount = asked_for(bets@, n);
            let placed = r->Ok_0@;
            &&& placed.len() == n
            &&& forall|i: int|
                0 <= i < n ==> #[trigger] placed[i] == (Bet {
                    user,
                    market_id: bets@[i].0,
                    outcome: bets@[i].1,
                    amount: bets@[i].2,
                    timestamp: s.context.timestamp,
                    status: BetStatus::Active,
                })
            &&& forall|i: int| 0 <= i < n ==> #[trigger] request_filed(s, t, user, bets@, i)
            &&& forall|m: Symbol|
                !named_by(bets@, n, m) ==> #[trigger] crate::bet_laws::market_untouched(s, t, m)
            &&& crate::rule_laws::transferred(s, t, user, s.context.contract, amount)
            &&& s.bets_left is None ==> t.bets_left is None
            &&& s.bets_left matches Some(left) ==> t.bets_left == Some((left - n) as u32) && n
                <= left
            &&& t.batches == s.batches.insert(key, true)
            &&& t.effects.len() == p + 3 + 2 * n
            &&& t.effects.take(p) == s.effects
            &&& t.effects[p] == Effect::RequireAuth { address: user }
            &&& t.effects[p + 1] == (Effect::Transfer {
                from: user,
                to: s.context.contract,
                amount: amount as i128,
            })
            &&& forall|i: int|
                0 <= i < n ==> (
                t.effects[p + 2 + 2 * i],
                t.effects[p + 3 + 2 * i],
                ) == #[trigger] effects_of_request(s, user, bets@, i)
            &&& t.effects[p + 2 + 2 * n] == (Effect::ExtendTtl {
                entry: TtlEntry::Batch { batch: key },
                ledgers: 120_960,
            })
            &&& (LedgerView {
                bets_left: s.bets_left,
                balances: s.balances,
                bets: s.bets,
                registries: s.registries,
                user_stakes: s.user_stakes,
                stats: s.stats,
                markets: s.markets,
                batches: s.batches,
                effects: s.effects,
                ..t
            }) == s
        }),
{
    let s = old(env)@;
    let t = final(env)@;
    let n = bets@.len() as int;
    let p = s.effects.len() as int;
    lemma_requests(s, user, bets@, n);
    lemma_sums_agree(bets@, n);
    assert(request_may_be_placed(s, user, bets@, n - 1));
    let amount = asked_for(bets@, n) as i128;
    let balances = s.locking(user, amount)->Ok_0;
    let paid = s.batch_paid(user, bets@, balances);
    lemma_writes(paid, s, user, bets@, n);
    let u = paid.after_writes(s, user, bets@, n);
    assert(t.effects.take(p) =~= s.effects) by {
        assert(paid.effects.take(p) =~= s.effects);
        assert(u.effects.take(p + 2) == paid.effects);
        assert(t.effects.take(p) =~= u.effects.take(p + 2).take(p));
    }
    assert(u.effects.take(p + 2)[p] == paid.effects[p]);
    assert(u.effects.take(p + 2)[p + 1] == paid.effects[p + 1]);
    assert forall|i: int| 0 <= i < n implies #[trigger] request_filed(s, t, user, bets@, i) by {
        assert(request_filed(s, u, user, bets@, i));
        lemma_same_market_entries(u, t, bets@[i].0);
        lemma_still_filed(s, u, t, user, bets@, i);
    }
    assert forall|m: Symbol| !named_by(bets@, n, m) implies #[trigger]
        crate::bet_laws::market_untouched(s, t, m) by {
        assert(crate::bet_laws::market_untouched(s, u, m));
        lemma_same_market_entries(u, t, m);
        lemma_untouched_twice(s, u, t, m);
    }
    assert forall|i: int| 0 <= i < n implies (
        t.effects[p + 2 + 2 * i],
        t.effects[p + 3 + 2 * i],
    ) == #[trigger] effects_of_request(s, user, bets@, i) by {
        assert(effects_of_request(s, user, bets@, i) == (
            u.effects[(p + 2) + 2 * i],
            u.effects[(p + 2) + 2 * i + 1],
        ));
    }
}

proof fn lemma_same_market_entries(s: LedgerView, t: LedgerView, m: Symbol)
    requires
        t.bets == s.bets,
        t.registries == s.registries,
        t.user_stakes == s.user_stakes,
        t.stats == s.stats,
        t.markets == s.markets,
    ensures
        crate::bet_laws::market_untouched(s, t, m),
{
}

} // verus!
