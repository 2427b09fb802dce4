//! What settling, paying back and paying out come to, in terms of the entries of a
//! ledger.
use vstd::prelude::*;

use crate::error::Error;
use crate::host::IdList;
use crate::ledger::{Effect, Event, Ledger, LedgerView};
use crate::manager::BetManager;
use crate::types::{
    Address, Bet, BetKey, BetStatsView, BetStatus, MarketView, Outcome, Symbol,
};

verus! {

/// Where bets are filed in order, the books are.
proof fn lemma_books(s: LedgerView)
    requires
        crate::bet_laws::filed_in_order(s),
    ensures
        s.books_in_order(),
{
    assert forall|k: BetKey| #[trigger] s.bets.contains_key(k) implies s.bets[k].key() == k
        && crate::books::registry_in(s.registries, k.market_id).contains(k.user.id) by {
        assert(crate::rule_laws::listed(s, k.market_id) == crate::books::registry_in(
            s.registries,
            k.market_id,
        ));
    }
    assert forall|m: Symbol| (#[trigger] crate::books::registry_in(
        s.registries,
        m,
    )).no_duplicates() by {
        assert(crate::rule_laws::listed(s, m) == crate::books::registry_in(s.registries, m));
    }
}

/// The bets of every ledger are filed under their own markets and users, and every
/// user with a bet is listed for its market, once.
pub proof fn law_ledgers_are_filed_in_order(env: &Ledger, market_id: &Symbol, bettors: IdList)
    requires
        call_ensures(
            crate::storage::BetStorage::get_all_bets_for_market,
            (env, market_id),
            bettors,
        ),
    ensures
        crate::bet_laws::filed_in_order(env@),
{
    let s = env@;
    assert forall|k: BetKey| #[trigger] s.bets.contains_key(k) implies s.bets[k].market_id
        == k.market_id && s.bets[k].user == k.user && crate::rule_laws::listed(
        s,
        k.market_id,
    ).contains(k.user.id) by {
        assert(s.bets[k].key() == k);
        assert(crate::rule_laws::listed(s, k.market_id) == crate::books::registry_in(
            s.registries,
            k.market_id,
        ));
    }
    assert forall|m: Symbol| (#[trigger] crate::rule_laws::listed(s, m)).no_duplicates() by {
        assert(crate::rule_laws::listed(s, m) == crate::books::registry_in(s.registries, m));
    }
}

/// What a bet is once its market has ended in `winners`.
pub open spec fn verdict(bet: Bet, winners: Seq<u64>) -> BetStatus {
    if winners.contains(bet.outcome.id) {
        BetStatus::Won
    } else {
        BetStatus::Lost
    }
}

/// The events for the first `n` bettors of a market that ends in `winners`: one for
/// each whose bet gets another status, in their order.
pub open spec fn verdicts_published(
    s: LedgerView,
    market_id: Symbol,
    winners: Seq<u64>,
    n: int,
) -> Seq<Effect>
    decreases n,
{
    if n <= 0 {
        Seq::empty()
    } else {
        let user = Address { id: crate::rule_laws::listed(s, market_id)[n - 1] };
        let bet = s.bets[BetKey { market_id, user }];
        let before = verdicts_published(s, market_id, winners, n - 1);
        if s.bets.contains_key(BetKey { market_id, user }) && bet.status != verdict(bet, winners) {
            before + seq![
                Effect::Publish {
                    event: Event::BetStatusUpdated {
                        market_id,
                        user,
                        old_status: bet.status,
                        new_status: verdict(bet, winners),
                        payout: None,
                    },
                },
            ]
        } else {
            before
        }
    }
}

proof fn lemma_verdicts(s: LedgerView, market_id: Symbol, winners: Seq<u64>, n: int)
    requires
        crate::bet_laws::filed_in_order(s),
        0 <= n <= crate::rule_laws::listed(s, market_id).len(),
    ensures
        s.resolution_effects(market_id, winners, n) == s.effects + verdicts_published(
            s,
            market_id,
            winners,
            n,
        ),
    decreases n,
{
    if n > 0 {
        lemma_verdicts(s, market_id, winners, n - 1);
        let user = Address { id: crate::rule_laws::listed(s, market_id)[n - 1] };
        let key = BetKey { market_id, user };
        if s.bets.contains_key(key) {
            assert(s.bets[key].user == user);
        }
    }
    assert(s.resolution_effects(market_id, winners, n) =~= s.effects + verdicts_published(
        s,
        market_id,
        winners,
        n,
    ));
}

/// Settling is refused only while it is paused. It makes every bet on the market
/// won where its outcome is among the winners and lost where it is not, publishes
/// each status that changes, and touches nothing else.
pub proof fn law_what_settling_does(
    env: &mut Ledger,
    market_id: &Symbol,
    winning_outcomes: &IdList,
    r: Result<(), Error>,
)
    requires
        call_ensures(BetManager::resolve_market_bets, (env, market_id, winning_outcomes), r),
        crate::bet_laws::filed_in_order(old(env)@),
    ensures
        ({
            let (s, t) = (old(env)@, final(env)@);
            let winners = winning_outcomes@;
            &&& r is Ok <==> !s.context.resolving_paused
            &&& r matches Err(e) ==> e == Error::CircuitBreakerOpen && t == s
            &&& r is Ok ==> {
                &&& forall|k: BetKey| #[trigger]
                    t.bets.contains_key(k) == s.bets.contains_key(k)
                &&& forall|k: BetKey| #[trigger]
                    s.bets.contains_key(k) && k.market_id != *market_id ==> t.bets[k] == s.bets[k]
                &&& forall|k: BetKey| #[trigger]
                    s.bets.contains_key(k) && k.market_id == *market_id ==> t.bets[k] == (Bet {
                        status: if winners.contains(s.bets[k].outcome.id) {
                            BetStatus::Won
                        } else {
                            BetStatus::Lost
                        },
                        ..s.bets[k]
                    })
                &&& t.effects == s.effects + verdicts_published(
                    s,
                    *market_id,
                    winners,
                    crate::rule_laws::listed(s, *market_id).len() as int,
                )
            }
            &&& (LedgerView { bets: s.bets, effects: s.effects, ..t }) == s
        }),
{
    let s = old(env)@;
    lemma_verdicts(
        s,
        *market_id,
        winning_outcomes@,
        crate::rule_laws::listed(s, *market_id).len() as int,
    );
}

/// What is due to `user` when `market_id` is called off.
pub open spec fn due(s: LedgerView, market_id: Symbol, user: Address) -> int {
    let key = BetKey { market_id, user };
    if s.bets.contains_key(key) && s.bets[key].status == BetStatus::Active {
        s.bets[key].amount as int
    } else {
        0
    }
}

/// Whether `user` has an active bet on `market_id`.
pub open spec fn still_active(s: LedgerView, market_id: Symbol, user: Address) -> bool {
    let key = BetKey { market_id, user };
    s.bets.contains_key(key) && s.bets[key].status == BetStatus::Active
}

/// What is due to the first `n` bettors of `market_id`.
pub open spec fn due_in_all(s: LedgerView, market_id: Symbol, n: int) -> int
    decreases n,
{
    if n <= 0 {
        0
    } else {
        due(s, market_id, Address { id: crate::rule_laws::listed(s, market_id)[n - 1] })
            + due_in_all(s, market_id, n - 1)
    }
}

/// What is due to those of the first `n` bettors of `market_id` that are not the
/// contract itself.
pub open spec fn due_to_others(s: LedgerView, market_id: Symbol, n: int) -> int
    decreases n,
{
    if n <= 0 {
        0
    } else {
        let user = Address { id: crate::rule_laws::listed(s, market_id)[n - 1] };
        due_to_others(s, market_id, n - 1) + (if user == s.context.contract {
            0
        } else {
            due(s, market_id, user)
        })
    }
}

/// The effects of paying the first `n` bettors of `market_id` back: for each with
/// an active bet the transfer and the event, in their order.
pub open spec fn paid_back_in_order(s: LedgerView, market_id: Symbol, n: int) -> Seq<Effect>
    decreases n,
{
    if n <= 0 {
        Seq::empty()
    } else {
        let user = Address { id: crate::rule_laws::listed(s, market_id)[n - 1] };
        let amount = s.bets[BetKey { market_id, user }].amount;
        let before = paid_back_in_order(s, market_id, n - 1);
        if still_active(s, market_id, user) {
            before + seq![
                Effect::Transfer { from: s.context.contract, to: user, amount },
                Effect::Publish {
                    event: Event::BetStatusUpdated {
                        market_id,
                        user,
                        old_status: BetStatus::Active,
                        new_status: BetStatus::Refunded,
                        payout: Some(amount),
                    },
                },
            ]
        } else {
            before
        }
    }
}

proof fn lemma_due_sums(s: LedgerView, market_id: Symbol, n: int)
    ensures
        due_in_all(s, market_id, n) == crate::laws::owed_in_all(s, market_id, n),
    decreases n,
{
    if n > 0 {
        lemma_due_sums(s, market_id, n - 1);
    }
}

/// Where nothing negative is due, sums over fewer bettors are not larger.
proof fn lemma_due_grows(s: LedgerView, market_id: Symbol, i: int, n: int)
    requires
        0 <= i <= n,
        forall|user: Address| #[trigger] due(s, market_id, user) >= 0,
    ensures
        0 <= due_in_all(s, market_id, i) <= due_in_all(s, market_id, n),
        due_to_others(s, market_id, i) <= due_in_all(s, market_id, i),
        0 <= due_to_others(s, market_id, i) <= due_to_others(s, market_id, n),
    decreases n,
{
    if n > 0 {
        if i < n {
            lemma_due_grows(s, market_id, i, n - 1);
        } else {
            lemma_due_grows(s, market_id, i - 1, n - 1);
        }
    }
}

/// What paying the first `n` bettors back does to the contract's balance and asks
/// for.
proof fn lemma_paying_back(s: LedgerView, market_id: Symbol, n: int)
    requires
        s.books_in_order(),
        s.markets.contains_key(market_id),
        0 <= n <= s.registry(market_id).len(),
        s.refund_steps(market_id, s.registry(market_id), n) is Ok,
    ensures
        ({
            let t = s.refund_steps(market_id, s.registry(market_id), n)->Ok_0;
            let contract = s.context.contract;
            &&& crate::rule_laws::held(t, contract) == crate::rule_laws::held(s, contract)
                - due_to_others(s, market_id, n)
            &&& t.effects == s.effects + paid_back_in_order(s, market_id, n)
            &&& forall|i: int|
                0 <= i < n && still_active(
                    s,
                    market_id,
                    Address { id: #[trigger] s.registry(market_id)[i] },
                ) ==> due(s, market_id, Address { id: s.registry(market_id)[i] }) >= 0
                    && s.context.token is Some && !s.context.locks.unlock_funds
        }),
    decreases n,
{
    let bettors = s.registry(market_id);
    let u = s.refund_steps(market_id, bettors, n)->Ok_0;
    if n > 0 {
        lemma_paying_back(s, market_id, n - 1);
        crate::settlement::lemma_next_bettor(s, market_id, n - 1);
        let t = s.refund_steps(market_id, bettors, n - 1)->Ok_0;
        let next = Address { id: bettors[n - 1] };
        if still_active(s, market_id, next) {
            let bet = s.bets[BetKey { market_id, user: next }];
            assert(t.bet(market_id, next) == Some(bet));
            crate::laws::law_transfer_conserves(
                t.balances,
                s.context.contract,
                next,
                bet.amount,
                s.context.contract,
            );
        }
    }
    assert(u.effects =~= s.effects + paid_back_in_order(s, market_id, n));
}

/// Where the funds are there, the first `n` bettors can be paid back.
proof fn lemma_paying_back_is_granted(s: LedgerView, market_id: Symbol, n: int)
    requires
        s.books_in_order(),
        s.markets.contains_key(market_id),
        s.context.token is Some,
        !s.context.locks.unlock_funds,
        forall|user: Address| #[trigger] due(s, market_id, user) >= 0,
        crate::rule_laws::held(s, s.context.contract) >= due_in_all(
            s,
            market_id,
            s.registry(market_id).len() as int,
        ),
        forall|user: Address|
            user != s.context.contract ==> crate::rule_laws::representable(
                #[trigger] crate::rule_laws::held(s, user) + due(s, market_id, user),
            ),
        0 <= n <= s.registry(market_id).len(),
    ensures
        s.refund_steps(market_id, s.registry(market_id), n) is Ok,
    decreases n,
{
    let bettors = s.registry(market_id);
    let contract = s.context.contract;
    if n > 0 {
        lemma_paying_back_is_granted(s, market_id, n - 1);
        lemma_paying_back(s, market_id, n - 1);
        crate::settlement::lemma_next_bettor(s, market_id, n - 1);
        crate::settlement::lemma_take_one_more(bettors, n - 1);
        lemma_due_grows(s, market_id, n, bettors.len() as int);
        lemma_due_grows(s, market_id, n - 1, n);
        let t = s.refund_steps(market_id, bettors, n - 1)->Ok_0;
        let next = Address { id: bettors[n - 1] };
        if still_active(s, market_id, next) {
            let bet = s.bets[BetKey { market_id, user: next }];
            assert(t.bet(market_id, next) == Some(bet));
            assert(due(s, market_id, next) == bet.amount);
            assert(crate::rule_laws::held(t, contract) >= bet.amount);
            if next != contract {
                crate::laws::lemma_refunds_paid(s, market_id, n - 1, next);
                assert(t.balance(next) == crate::rule_laws::held(s, next));
            }
            assert(t.unlocking(next, bet.amount) is Ok);
        }
    }
}

/// Paying back is granted whatever the time and the state of the market: all it
/// takes is that it is not paused, that the market exists, that there is a token
/// and no payment under way, that no bet is negative, that the contract holds what
/// is due in all, and that every bettor can hold what they get.
pub proof fn law_paying_back_is_granted(env: &mut Ledger, market_id: &Symbol, r: Result<(), Error>)
    requires
        call_ensures(BetManager::refund_market_bets, (env, market_id), r),
        crate::bet_laws::filed_in_order(old(env)@),
        !old(env)@.context.refunding_paused,
        old(env)@.markets.contains_key(*market_id),
        old(env)@.context.token is Some,
        !old(env)@.context.locks.unlock_funds,
        forall|user: Address| #[trigger] due(old(env)@, *market_id, user) >= 0,
        crate::rule_laws::held(old(env)@, old(env)@.context.contract) >= due_in_all(
            old(env)@,
            *market_id,
            crate::rule_laws::listed(old(env)@, *market_id).len() as int,
        ),
        forall|user: Address|
            user != old(env)@.context.contract ==> crate::rule_laws::representable(
                #[trigger] crate::rule_laws::held(old(env)@, user) + due(
                    old(env)@,
                    *market_id,
                    user,
                ),
            ),
    ensures
        r is Ok,
{
    let s = old(env)@;
    lemma_books(s);
    lemma_paying_back_is_granted(s, *market_id, s.registry(*market_id).len() as int);
}

/// A market on which no bet is active is paid back without a token and during a
/// payment too.
pub proof fn law_nothing_due_is_paid_back(
    env: &mut Ledger,
    market_id: &Symbol,
    r: Result<(), Error>,
)
    requires
        call_ensures(BetManager::refund_market_bets, (env, market_id), r),
        !old(env)@.context.refunding_paused,
        old(env)@.markets.contains_key(*market_id),
        forall|user: Address| !#[trigger] still_active(old(env)@, *market_id, user),
    ensures
        r is Ok,
        final(env)@ == old(env)@,
{
    let s = old(env)@;
    lemma_nothing_active(s, *market_id, s.registry(*market_id).len() as int);
}

proof fn lemma_nothing_active(s: LedgerView, market_id: Symbol, n: int)
    requires
        forall|user: Address| !#[trigger] still_active(s, market_id, user),
    ensures
        s.refund_steps(market_id, s.registry(market_id), n) == Ok::<LedgerView, Error>(s),
    decreases n,
{
    if n > 0 {
        lemma_nothing_active(s, market_id, n - 1);
        assert(!still_active(s, market_id, Address { id: s.registry(market_id)[n - 1] }));
    }
}

/// What the contract still holds when it is the turn of bettor `i` of `market_id`.
pub open spec fn held_at_turn(s: LedgerView, market_id: Symbol, i: int) -> int {
    crate::rule_laws::held(s, s.context.contract) - due_to_others(s, market_id, i)
}

/// Whether bettor `i` of `market_id` can be paid what is due to them when it is
/// their turn. Nothing stands against it where their bet is not active.
pub open spec fn can_be_paid_back(s: LedgerView, market_id: Symbol, i: int) -> bool {
    let user = Address { id: crate::rule_laws::listed(s, market_id)[i] };
    let amount = due(s, market_id, user);
    still_active(s, market_id, user) ==> {
        &&& s.context.token is Some
        &&& !s.context.locks.unlock_funds
        &&& 0 <= amount <= held_at_turn(s, market_id, i)
        &&& user == s.context.contract || crate::rule_laws::representable(
            crate::rule_laws::held(s, user) + amount,
        )
    }
}

/// The error of a bettor that cannot be paid back.
pub open spec fn why_not_paid_back(s: LedgerView, market_id: Symbol, i: int) -> Error {
    let user = Address { id: crate::rule_laws::listed(s, market_id)[i] };
    let amount = due(s, market_id, user);
    if s.context.token is None {
        Error::InvalidInput
    } else if s.context.locks.unlock_funds {
        Error::InvalidState
    } else if amount < 0 {
        Error::InvalidInput
    } else if amount > held_at_turn(s, market_id, i) {
        Error::InsufficientBalance
    } else {
        Error::Overflow
    }
}

proof fn lemma_when_paid_back(s: LedgerView, market_id: Symbol, n: int)
    requires
        s.books_in_order(),
        s.markets.contains_key(market_id),
        0 <= n <= s.registry(market_id).len(),
    ensures
        s.refund_steps(market_id, s.registry(market_id), n) is Ok <==> forall|i: int|
            0 <= i < n ==> can_be_paid_back(s, market_id, i),
        s.refund_steps(market_id, s.registry(market_id), n) matches Err(e) ==> exists|i: int|
            0 <= i < n && !#[trigger] can_be_paid_back(s, market_id, i) && e == why_not_paid_back(
                s,
                market_id,
                i,
            ) && forall|j: int| 0 <= j < i ==> can_be_paid_back(s, market_id, j),
    decreases n,
{
    let bettors = s.registry(market_id);
    if n > 0 {
        lemma_when_paid_back(s, market_id, n - 1);
        if s.refund_steps(market_id, bettors, n - 1) is Ok {
            lemma_paying_back(s, market_id, n - 1);
            crate::settlement::lemma_next_bettor(s, market_id, n - 1);
            crate::settlement::lemma_take_one_more(bettors, n - 1);
            let t = s.refund_steps(market_id, bettors, n - 1)->Ok_0;
            let next = Address { id: bettors[n - 1] };
            if still_active(s, market_id, next) {
                let bet = s.bets[BetKey { market_id, user: next }];
                assert(t.bet(market_id, next) == Some(bet));
                assert(due(s, market_id, next) == bet.amount);
                if next != s.context.contract {
                    crate::laws::lemma_refunds_paid(s, market_id, n - 1, next);
                    assert(t.balance(next) == crate::rule_laws::held(s, next));
                }
                assert(t.balance(s.context.contract) == held_at_turn(s, market_id, n - 1));
            }
            assert(s.refund_steps(market_id, bettors, n) is Ok <==> can_be_paid_back(
                s,
                market_id,
                n - 1,
            ));
        }
    }
}

/// A market is paid back where that is not paused, the market exists and every
/// bettor can be paid in turn; nothing else is asked of it. Otherwise nothing
/// changes, and the error is that of the first reason, among the bettors that of
/// the first who cannot be paid.
pub proof fn law_when_a_market_is_paid_back(
    env: &mut Ledger,
    market_id: &Symbol,
    r: Result<(), Error>,
    i: int,
)
    requires
        call_ensures(BetManager::refund_market_bets, (env, market_id), r),
        crate::bet_laws::filed_in_order(old(env)@),
    ensures
        ({
            let s = old(env)@;
            let m = *market_id;
            let n = crate::rule_laws::listed(s, m).len() as int;
            &&& r is Ok <==> !s.context.refunding_paused && s.markets.contains_key(m) && forall|
                j: int,
            |
                0 <= j < n ==> can_be_paid_back(s, m, j)
            &&& r matches Err(e) ==> {
                &&& final(env)@ == s
                &&& s.context.refunding_paused ==> e == Error::CircuitBreakerOpen
                &&& !s.context.refunding_paused && !s.markets.contains_key(m) ==> e
                    == Error::MarketNotFound
                &&& !s.context.refunding_paused && s.markets.contains_key(m) && 0 <= i < n
                    && !can_be_paid_back(s, m, i) && (forall|j: int|
                    0 <= j < i ==> can_be_paid_back(s, m, j)) ==> e == why_not_paid_back(s, m, i)
            }
        }),
{
    let s = old(env)@;
    lemma_books(s);
    if !s.context.refunding_paused && s.markets.contains_key(*market_id) {
        lemma_when_paid_back(s, *market_id, s.registry(*market_id).len() as int);
    }
}

/// Paying back gives every bettor the whole amount of their active bet and marks it
/// as refunded. The contract pays just that. The market loses those stakes and
/// votes and their sum; nothing else changes, and nothing else is asked for.
pub proof fn law_what_paying_back_does(
    env: &mut Ledger,
    market_id: &Symbol,
    r: Result<(), Error>,
    other: Symbol,
)
    requires
        call_ensures(BetManager::refund_market_bets, (env, market_id), r),
        crate::bet_laws::filed_in_order(old(env)@),
        r is Ok,
    ensures
        ({
            let (s, t) = (old(env)@, final(env)@);
            let m = *market_id;
            let n = crate::rule_laws::listed(s, m).len() as int;
            let contract = s.context.contract;
            let before = s.markets[m];
            let after = t.markets[m];
            &&& !s.context.refunding_paused
            &&& s.markets.contains_key(m)
            &&& forall|user: Address| #[trigger]
                still_active(s, m, user) ==> due(s, m, user) >= 0 && s.context.token is Some
                    && !s.context.locks.unlock_funds
            &&& forall|user: Address|
                user != contract ==> #[trigger] crate::rule_laws::held(t, user)
                    == crate::rule_laws::held(s, user) + due(s, m, user)
            &&& crate::rule_laws::held(t, contract) == crate::rule_laws::held(s, contract)
                - due_to_others(s, m, n)
            &&& forall|k: BetKey| #[trigger] t.bets.contains_key(k) == s.bets.contains_key(k)
            &&& forall|k: BetKey| #[trigger]
                s.bets.contains_key(k) ==> t.bets[k] == (Bet {
                    status: if k.market_id == m && s.bets[k].status == BetStatus::Active {
                        BetStatus::Refunded
                    } else {
                        s.bets[k].status
                    },
                    ..s.bets[k]
                })
            &&& t.markets.contains_key(m)
            &&& after.total_staked == crate::rule_laws::nearest(
                before.total_staked - due_in_all(s, m, n),
            )
            &&& forall|user: Address|
                after.votes.contains_key(user.id) == (before.votes.contains_key(user.id)
                    && !#[trigger] still_active(s, m, user))
            &&& forall|user: Address|
                after.stakes.contains_key(user.id) == (before.stakes.contains_key(user.id)
                    && !#[trigger] still_active(s, m, user))
            &&& forall|id: u64| #[trigger]
                after.votes.contains_key(id) ==> after.votes[id] == before.votes[id]
            &&& forall|id: u64| #[trigger]
                after.stakes.contains_key(id) ==> after.stakes[id] == before.stakes[id]
            &&& (MarketView {
                total_staked: before.total_staked,
                votes: before.votes,
                stakes: before.stakes,
                ..after
            }) == before
            &&& other != m ==> t.markets.contains_key(other) == s.markets.contains_key(other)
                && t.markets[other] == s.markets[other]
            &&& t.effects == s.effects + paid_back_in_order(s, m, n)
            &&& (LedgerView {
                balances: s.balances,
                bets: s.bets,
                markets: s.markets,
                effects: s.effects,
                ..t
            }) == s
        }),
{
    let s = old(env)@;
    let t = final(env)@;
    let m = *market_id;
    let n = s.registry(m).len() as int;
    lemma_books(s);
    lemma_paying_back(s, m, n);
    lemma_due_sums(s, m, n);
    crate::settlement::lemma_refund_steps(s, m, n);
    crate::laws::law_refunding_unstakes_active_bets(s, m);
    assert forall|user: Address| user != s.context.contract implies #[trigger]
        crate::rule_laws::held(t, user) == crate::rule_laws::held(s, user) + due(s, m, user) by {
        crate::laws::law_refunding_pays_what_is_owed(s, m, user);
        assert(t.balance(user) == s.balance(user) + crate::laws::owed(s, m, user));
    }
    assert forall|user: Address| #[trigger] still_active(s, m, user) implies due(s, m, user) >= 0
        && s.context.token is Some && !s.context.locks.unlock_funds by {
        assert(s.bets.contains_key(BetKey { market_id: m, user }));
        let bettors = crate::rule_laws::listed(s, m);
        let i = choose|i: int| 0 <= i < bettors.len() && bettors[i] == user.id;
        assert(s.registry(m)[i] == user.id);
        assert(user == Address { id: s.registry(m)[i] });
    }
    assert forall|k: BetKey| #[trigger] t.bets.contains_key(k) == s.bets.contains_key(k) by {
        assert(t.bets.dom().contains(k) == s.bets.dom().contains(k));
    }
    assert forall|k: BetKey| #[trigger] s.bets.contains_key(k) implies t.bets[k] == (Bet {
        status: if k.market_id == m && s.bets[k].status == BetStatus::Active {
            BetStatus::Refunded
        } else {
            s.bets[k].status
        },
        ..s.bets[k]
    }) by {
        crate::laws::law_refunding_closes_every_bet(s, m, k);
    }
    assert forall|user: Address| #[trigger]
        still_active(s, m, user) == crate::laws::has_active_bet(s, m, user.id) by {
        assert(user == Address { id: user.id });
    }
}

/// What stands on the first `n` of `winners`, each counted where it is named first.
pub open spec fn standing_on_winners(stats: BetStatsView, winners: Seq<u64>, n: int) -> int
    decreases n,
{
    if n <= 0 {
        0
    } else {
        (if exists|i: int| 0 <= i < n - 1 && #[trigger] winners[i] == winners[n - 1] {
            0
        } else {
            crate::rule_laws::standing_on(stats, Outcome { id: winners[n - 1] })
        }) + standing_on_winners(stats, winners, n - 1)
    }
}

/// Whether every sum on the way to `n` winners can be written down.
pub open spec fn winners_sum_up(stats: BetStatsView, winners: Seq<u64>, n: int) -> bool {
    forall|i: int|
        0 <= i <= n ==> crate::rule_laws::representable(
            #[trigger] standing_on_winners(stats, winners, i),
        )
}

proof fn lemma_winners(stats: BetStatsView, winners: Seq<u64>, n: int)
    requires
        0 <= n <= winners.len(),
    ensures
        crate::payout::winning_total(stats, winners, n) is Some <==> winners_sum_up(
            stats,
            winners,
            n,
        ),
        crate::payout::winning_total(stats, winners, n) matches Some(total) ==> total
            == standing_on_winners(stats, winners, n),
    decreases n,
{
    if n > 0 {
        lemma_winners(stats, winners, n - 1);
        let last = winners[n - 1];
        let earlier = winners.take(n - 1);
        if earlier.contains(last) {
            let i = choose|i: int| 0 <= i < earlier.len() && #[trigger] earlier[i] == last;
            assert(winners[i] == last);
        }
        if exists|i: int| 0 <= i < n - 1 && #[trigger] winners[i] == last {
            let i = choose|i: int| 0 <= i < n - 1 && #[trigger] winners[i] == last;
            assert(earlier[i] == last);
        }
        if winners_sum_up(stats, winners, n) {
            assert(crate::rule_laws::representable(standing_on_winners(stats, winners, n)));
            assert(winners_sum_up(stats, winners, n - 1));
        }
        if winners_sum_up(stats, winners, n - 1) && crate::rule_laws::representable(
            standing_on_winners(stats, winners, n),
        ) {
            assert forall|i: int| 0 <= i <= n implies crate::rule_laws::representable(
                #[trigger] standing_on_winners(stats, winners, i),
            ) by {}
        }
    } else {
        assert(standing_on_winners(stats, winners, 0) == 0);
        assert forall|i: int| 0 <= i <= n implies crate::rule_laws::representable(
            #[trigger] standing_on_winners(stats, winners, i),
        ) by {}
    }
}

/// A bet is paid out where it was won on a market with a result that has been
/// summed up. It gets the part of the pool less the fee that it is of all that
/// stands on the winners, each quotient cut off at the point. What was not won, or
/// has nothing standing on it, is paid nothing.
pub proof fn law_payout_of_a_bet(
    env: &Ledger,
    market_id: &Symbol,
    user: &Address,
    fee_percentage: i128,
    r: Result<i128, Error>,
)
    requires
        call_ensures(
            BetManager::calculate_bet_payout,
            (env, market_id, user, fee_percentage),
            r,
        ),
    ensures
        ({
            let s = env@;
            let m = *market_id;
            let key = BetKey { market_id: m, user: *user };
            let bet = s.bets[key];
            let winners = s.markets[m].winning_outcomes->0;
            let n = winners.len() as int;
            let stats = crate::rule_laws::counted(s, m);
            let total = standing_on_winners(stats, winners, n);
            let pool = s.resolutions[m].total_pool as int;
            let share = pool - crate::rule_laws::cut_quotient(pool * fee_percentage, 10_000);
            let paid = crate::rule_laws::cut_quotient(bet.amount * share, total);
            let fits = crate::rule_laws::representable(pool * fee_percentage)
                && crate::rule_laws::representable(share) && crate::rule_laws::representable(
                bet.amount * share,
            ) && crate::rule_laws::representable(paid);
            r == (if !s.bets.contains_key(key) {
                Err(Error::NothingToClaim)
            } else if bet.status != BetStatus::Won {
                Ok(0i128)
            } else if !s.markets.contains_key(m) {
                Err(Error::MarketNotFound)
            } else if s.markets[m].winning_outcomes is None || !s.resolutions.contains_key(m) {
                Err(Error::MarketNotResolved)
            } else if s.resolutions[m].num_winning_outcomes == 0 || crate::rule_laws::standing_on(
                stats,
                bet.outcome,
            ) == 0 {
                Ok(0)
            } else if !winners_sum_up(stats, winners, n) {
                Err(Error::InvalidInput)
            } else if total == 0 {
                Ok(0)
            } else if !fits {
                Err(Error::InvalidInput)
            } else {
                Ok(paid as i128)
            })
        }),
{
    let s = env@;
    let m = *market_id;
    let bet = s.bets[BetKey { market_id: m, user: *user }];
    let winners = s.markets[m].winning_outcomes->0;
    let stats = crate::rule_laws::counted(s, m);
    let pool = s.resolutions[m].total_pool as int;
    lemma_winners(stats, winners, winners.len() as int);
    crate::rule_laws::law_cut_quotient_is_the_quotient(pool * fee_percentage, 10_000);
    let share = pool - crate::rule_laws::cut_quotient(pool * fee_percentage, 10_000);
    crate::rule_laws::law_cut_quotient_is_the_quotient(
        bet.amount * share,
        standing_on_winners(stats, winners, winners.len() as int),
    );
}

} // verus!
