//! What placing and cancelling bets does to the entries of a ledger.
use vstd::prelude::*;

use crate::error::Error;
use crate::ledger::{Effect, Event, Ledger, LedgerView, TtlEntry};
use crate::manager::BetManager;
use crate::types::{Address, Bet, BetKey, BetStatus, MarketView, Outcome, Symbol, UserStakeKey};

verus! {

/// That `after` is `before` with a stake of `user` more: the total is higher by
/// the amount, and the vote and the stake of the user are those of the bet.
pub open spec fn stake_added(
    before: MarketView,
    after: MarketView,
    user: Address,
    outcome: Outcome,
    amount: i128,
) -> bool {
    &&& after.total_staked == before.total_staked + amount
    &&& after.votes.contains_key(user.id) && after.votes[user.id] == outcome.id
    &&& after.stakes.contains_key(user.id) && after.stakes[user.id] == amount
    &&& forall|id: u64|
        id != user.id ==> (#[trigger] after.votes.contains_key(id)) == before.votes.contains_key(id)
    &&& forall|id: u64|
        id != user.id ==> (#[trigger] after.votes[id]) == before.votes[id]
    &&& forall|id: u64|
        id != user.id ==> (#[trigger] after.stakes.contains_key(id))
            == before.stakes.contains_key(id)
    &&& forall|id: u64|
        id != user.id ==> (#[trigger] after.stakes[id]) == before.stakes[id]
    &&& (MarketView {
        total_staked: before.total_staked,
        votes: before.votes,
        stakes: before.stakes,
        ..after
    }) == before
}

/// That `after` is `before` without the stake of `user`: the total is lower by the
/// amount, and the user has neither vote nor stake.
pub open spec fn stake_taken_off(
    before: MarketView,
    after: MarketView,
    user: Address,
    amount: i128,
) -> bool {
    &&& after.total_staked == crate::rule_laws::nearest(before.total_staked - amount)
    &&& !after.votes.contains_key(user.id)
    &&& !after.stakes.contains_key(user.id)
    &&& forall|id: u64|
        id != user.id ==> (#[trigger] after.votes.contains_key(id)) == before.votes.contains_key(id)
    &&& forall|id: u64|
        id != user.id && before.votes.contains_key(id) ==> (#[trigger] after.votes[id])
            == before.votes[id]
    &&& forall|id: u64|
        id != user.id ==> (#[trigger] after.stakes.contains_key(id))
            == before.stakes.contains_key(id)
    &&& forall|id: u64|
        id != user.id && before.stakes.contains_key(id) ==> (#[trigger] after.stakes[id])
            == before.stakes[id]
    &&& (MarketView {
        total_staked: before.total_staked,
        votes: before.votes,
        stakes: before.stakes,
        ..after
    }) == before
}

/// A list with `id` in it, at the end where it was not in it before.
pub open spec fn listed_with(before: Seq<u64>, id: u64) -> Seq<u64> {
    if before.contains(id) {
        before
    } else {
        before.push(id)
    }
}

/// That everything on record for `market_id` is the same in two ledgers.
pub open spec fn market_untouched(s: LedgerView, t: LedgerView, market_id: Symbol) -> bool {
    &&& forall|user: Address| #[trigger]
        crate::rule_laws::on_record(t, market_id, user) == crate::rule_laws::on_record(
            s,
            market_id,
            user,
        )
    &&& forall|user: Address| #[trigger]
        crate::rule_laws::staked_so_far(t, market_id, user) == crate::rule_laws::staked_so_far(
            s,
            market_id,
            user,
        )
    &&& crate::rule_laws::listed(t, market_id) == crate::rule_laws::listed(s, market_id)
    &&& crate::rule_laws::counted(t, market_id) == crate::rule_laws::counted(s, market_id)
    &&& t.markets.contains_key(market_id) == s.markets.contains_key(market_id)
    &&& t.markets[market_id] == s.markets[market_id]
}

/// That the bet of `user` on `market_id` has come on record: the bet itself, the
/// user among the bettors, the amount on top of what the user has staked, the
/// statistics with one bet more and the market with its stake. What others have
/// there is the same.
pub open spec fn bet_filed(
    s: LedgerView,
    t: LedgerView,
    user: Address,
    market_id: Symbol,
    outcome: Outcome,
    amount: i128,
) -> bool {
    &&& crate::rule_laws::on_record(t, market_id, user) == Some(
        Bet {
            user,
            market_id,
            outcome,
            amount,
            timestamp: s.context.timestamp,
            status: BetStatus::Active,
        },
    )
    &&& crate::rule_laws::listed(t, market_id) == listed_with(
        crate::rule_laws::listed(s, market_id),
        user.id,
    )
    &&& crate::rule_laws::staked_so_far(t, market_id, user) == crate::rule_laws::staked_so_far(
        s,
        market_id,
        user,
    ) + amount
    &&& crate::rule_laws::counts_one_more(
        crate::rule_laws::counted(s, market_id),
        crate::rule_laws::counted(t, market_id),
        outcome,
        amount,
    )
    &&& t.markets.contains_key(market_id)
    &&& stake_added(s.markets[market_id], t.markets[market_id], user, outcome, amount)
    &&& forall|other: Address|
        other != user ==> #[trigger] crate::rule_laws::on_record(t, market_id, other)
            == crate::rule_laws::on_record(s, market_id, other)
    &&& forall|other: Address|
        other != user ==> #[trigger] crate::rule_laws::staked_so_far(t, market_id, other)
            == crate::rule_laws::staked_so_far(s, market_id, other)
}

/// Whether everything that a bet adds to can take it.
pub open spec fn can_be_filed(
    s: LedgerView,
    user: Address,
    market_id: Symbol,
    outcome: Outcome,
    amount: i128,
) -> bool {
    let bettors = crate::rule_laws::listed(s, market_id);
    let market = s.markets[market_id];
    &&& bettors.contains(user.id) || bettors.len() < 0xffff_ffff
    &&& crate::rule_laws::representable(
        crate::rule_laws::staked_so_far(s, market_id, user) + amount,
    )
    &&& crate::rule_laws::can_count_one_more(
        crate::rule_laws::counted(s, market_id),
        outcome,
        amount,
    )
    &&& crate::rule_laws::representable(market.total_staked + amount)
    &&& crate::rule_laws::room_for(market.votes, user.id)
    &&& crate::rule_laws::room_for(market.stakes, user.id)
}

/// Whether a call for one bet is in order before its sums and funds are looked at.
pub open spec fn may_place(
    s: LedgerView,
    user: Address,
    market_id: Symbol,
    outcome: Outcome,
    amount: i128,
    max_fee_bps: i128,
) -> bool {
    &&& !s.context.locks.place_bet
    &&& !s.context.betting_paused
    &&& s.bets_left matches Some(left) ==> left > 0
    &&& max_fee_bps > 0 ==> crate::rule_laws::fee_in_force(s.context) <= max_fee_bps
    &&& crate::rule_laws::may_bet(s, user, market_id, outcome, amount)
}

/// A bet is placed whenever the call is in order, the sums fit and the funds are
/// there; otherwise nothing changes.
pub proof fn law_when_a_bet_is_placed(
    env: &mut Ledger,
    user: Address,
    market_id: Symbol,
    outcome: Outcome,
    amount: i128,
    max_fee_bps: i128,
    r: Result<Bet, Error>,
)
    requires
        call_ensures(
            BetManager::place_bet,
            (env, user, market_id, outcome, amount, max_fee_bps),
            r,
        ),
    ensures
        ({
            let s = old(env)@;
            let stake = crate::rule_laws::staked_so_far(s, market_id, user) + amount;
            &&& r is Ok <==> {
                &&& may_place(s, user, market_id, outcome, amount, max_fee_bps)
                &&& can_be_filed(s, user, market_id, outcome, amount)
                &&& s.max_bet_cap matches Some(cap) ==> stake <= cap
                &&& !s.context.locks.lock_funds
                &&& crate::rule_laws::can_transfer(s, user, s.context.contract, amount)
            }
            &&& r is Err ==> final(env)@ == s
        }),
{
}

/// The error of a bet that is not placed is the one of the first reason against it.
pub proof fn law_why_a_bet_is_not_placed(
    env: &mut Ledger,
    user: Address,
    market_id: Symbol,
    outcome: Outcome,
    amount: i128,
    max_fee_bps: i128,
    e: Error,
)
    requires
        call_ensures(
            BetManager::place_bet,
            (env, user, market_id, outcome, amount, max_fee_bps),
            Err(e),
        ),
    ensures
        ({
            let s = old(env)@;
            let stake = crate::rule_laws::staked_so_far(s, market_id, user) + amount;
            let before = crate::rule_laws::counted(s, market_id);
            let market = s.markets[market_id];
            e == (if s.context.locks.place_bet {
                Error::InvalidState
            } else if s.context.betting_paused {
                Error::CircuitBreakerOpen
            } else if s.bets_left == Some(0u32) {
                Error::RateLimitExceeded
            } else if max_fee_bps > 0 && crate::rule_laws::fee_in_force(s.context) > max_fee_bps {
                Error::FeeExceedsMax
            } else if !crate::rule_laws::may_bet(s, user, market_id, outcome, amount) {
                crate::rule_laws::why_no_bet(s, market_id, outcome, amount)
            } else if !crate::rule_laws::representable(stake) {
                Error::Overflow
            } else if s.max_bet_cap matches Some(cap) && stake > cap {
                Error::MaxBetCapExceeded
            } else if !crate::rule_laws::can_count_one_more(before, outcome, amount) {
                crate::rule_laws::why_not_counted(before, outcome, amount)
            } else if !crate::rule_laws::representable(market.total_staked + amount) {
                Error::Overflow
            } else if !crate::rule_laws::room_for(market.votes, user.id)
                || !crate::rule_laws::room_for(market.stakes, user.id) {
                Error::InvalidInput
            } else if s.context.locks.lock_funds || !crate::rule_laws::can_transfer(
                s,
                user,
                s.context.contract,
                amount,
            ) {
                crate::rule_laws::why_no_transfer(s, s.context.locks.lock_funds, user, amount)
            } else {
                Error::InvalidInput
            })
        }),
{
}

/// A placed bet is handed back, is on record, has moved its amount from the user to
/// the contract and has used up one place of the ledger. Other markets and the rest
/// of the ledger stay as they were, and just four effects are asked for.
pub proof fn law_what_a_placed_bet_does(
    env: &mut Ledger,
    user: Address,
    market_id: Symbol,
    outcome: Outcome,
    amount: i128,
    max_fee_bps: i128,
    bet: Bet,
    other: Symbol,
)
    requires
        call_ensures(
            BetManager::place_bet,
            (env, user, market_id, outcome, amount, max_fee_bps),
            Ok(bet),
        ),
    ensures
        ({
            let (s, t) = (old(env)@, final(env)@);
            &&& bet == (Bet {
                user,
                market_id,
                outcome,
                amount,
                timestamp: s.context.timestamp,
                status: BetStatus::Active,
            })
            &&& bet_filed(s, t, user, market_id, outcome, amount)
            &&& other != market_id ==> market_untouched(s, t, other)
            &&& crate::rule_laws::transferred(s, t, user, s.context.contract, amount as int)
            &&& s.bets_left is None ==> t.bets_left is None
            &&& s.bets_left matches Some(left) ==> t.bets_left == Some((left - 1) as u32)
            &&& t.effects == s.effects + seq![
                Effect::RequireAuth { address: user },
                Effect::Transfer { from: user, to: s.context.contract, amount },
                Effect::ExtendTtl {
                    entry: TtlEntry::UserStake { stake: UserStakeKey { user, market_id } },
                    ledgers: s.context.market_ttl_ledgers,
                },
                Effect::Publish { event: Event::BetPlaced { market_id, user, outcome, amount } },
            ]
            &&& (LedgerView {
                bets_left: s.bets_left,
                balances: s.balances,
                bets: s.bets,
                registries: s.registries,
                user_stakes: s.user_stakes,
                stats: s.stats,
                markets: s.markets,
                effects: s.effects,
                ..t
            }) == s
        }),
{
}

/// A bet is placed under a fee that its user has agreed to: a bound above zero is
/// not passed by the fee in force.
pub proof fn law_placed_bets_keep_the_fee_bound(
    env: &mut Ledger,
    user: Address,
    market_id: Symbol,
    outcome: Outcome,
    amount: i128,
    max_fee_bps: i128,
    r: Result<Bet, Error>,
)
    requires
        call_ensures(
            BetManager::place_bet,
            (env, user, market_id, outcome, amount, max_fee_bps),
            r,
        ),
    ensures
        max_fee_bps > 0 && crate::rule_laws::fee_in_force(old(env)@.context) > max_fee_bps
            ==> r is Err,
        max_fee_bps <= 0 || crate::rule_laws::fee_in_force(old(env)@.context) <= max_fee_bps
            ==> r != Err::<Bet, Error>(Error::FeeExceedsMax),
{
}

/// That the bets of a ledger are filed under their own markets and users, and that
/// every user with a bet is listed for its market, once.
pub open spec fn filed_in_order(s: LedgerView) -> bool {
    &&& forall|k: BetKey| #[trigger]
        s.bets.contains_key(k) ==> s.bets[k].market_id == k.market_id && s.bets[k].user == k.user
            && crate::rule_laws::listed(s, k.market_id).contains(k.user.id)
    &&& forall|m: Symbol| (#[trigger] crate::rule_laws::listed(s, m)).no_duplicates()
}

/// Cancelling pays the whole amount of the bet on record back, at whatever time it
/// is granted: the user has that much more, the contract that much less, and nobody
/// else is touched.
pub proof fn law_cancelling_pays_the_bet_back(
    env: &mut Ledger,
    user: Address,
    market_id: Symbol,
    r: Result<(), Error>,
)
    requires
        call_ensures(BetManager::cancel_bet, (env, user, market_id), r),
        r is Ok,
    ensures
        ({
            let (s, t) = (old(env)@, final(env)@);
            let contract = s.context.contract;
            let bet = s.bets[BetKey { market_id, user }];
            &&& s.bets.contains_key(BetKey { market_id, user })
            &&& user != contract ==> crate::rule_laws::held(t, user) == crate::rule_laws::held(
                s,
                user,
            ) + bet.amount
            &&& user != contract ==> crate::rule_laws::held(t, contract) == crate::rule_laws::held(
                s,
                contract,
            ) - bet.amount
            &&& forall|who: Address|
                who != user && who != contract ==> #[trigger] crate::rule_laws::held(t, who)
                    == crate::rule_laws::held(s, who)
            &&& user == contract ==> crate::rule_laws::held(t, user) == crate::rule_laws::held(
                s,
                user,
            )
            &&& bet.amount >= 0
        }),
{
}

/// A bet is cancelled while it is active and its market has not ended, where the
/// contract can pay it back; otherwise nothing changes, and the error is that of
/// the first reason.
pub proof fn law_when_a_bet_is_cancelled(
    env: &mut Ledger,
    user: Address,
    market_id: Symbol,
    r: Result<(), Error>,
)
    requires
        call_ensures(BetManager::cancel_bet, (env, user, market_id), r),
        filed_in_order(old(env)@),
    ensures
        ({
            let (s, t) = (old(env)@, final(env)@);
            let found = crate::rule_laws::on_record(s, market_id, user);
            let bet = s.bets[BetKey { market_id, user }];
            let busy = s.context.locks.unlock_funds;
            let contract = s.context.contract;
            let before = crate::rule_laws::counted(s, market_id);
            let left = crate::rule_laws::standing_on(before, bet.outcome) - bet.amount;
            let room = left <= 0 || crate::rule_laws::room_for(
                before.outcome_totals,
                bet.outcome.id,
            );
            &&& r is Ok <==> {
                &&& !s.context.cancelling_paused
                &&& found is Some
                &&& bet.status == BetStatus::Active
                &&& s.markets.contains_key(market_id)
                &&& s.context.timestamp < s.markets[market_id].end_time
                &&& !busy
                &&& crate::rule_laws::can_transfer(s, contract, user, bet.amount)
                &&& room
            }
            &&& r matches Err(e) ==> t == s && e == (if s.context.cancelling_paused {
                Error::CircuitBreakerOpen
            } else if found is None {
                Error::NothingToClaim
            } else if bet.status != BetStatus::Active {
                Error::InvalidState
            } else if !s.markets.contains_key(market_id) {
                Error::MarketNotFound
            } else if s.context.timestamp >= s.markets[market_id].end_time {
                Error::MarketClosed
            } else if busy || !crate::rule_laws::can_transfer(s, contract, user, bet.amount) {
                crate::rule_laws::why_no_transfer(s, busy, contract, bet.amount)
            } else {
                Error::InvalidInput
            })
        }),
{
    let s = old(env)@;
    let key = BetKey { market_id, user };
    if s.bets.contains_key(key) {
        assert(crate::rule_laws::listed(s, market_id).contains(user.id));
    }
}

/// A cancelled bet stays on record as cancelled and is otherwise the same. It no
/// longer counts for the statistics and the stakes of its market. Nothing else
/// changes, and just three effects are asked for.
pub proof fn law_what_cancelling_does(
    env: &mut Ledger,
    user: Address,
    market_id: Symbol,
    r: Result<(), Error>,
    other: Symbol,
)
    requires
        call_ensures(BetManager::cancel_bet, (env, user, market_id), r),
        filed_in_order(old(env)@),
        r is Ok,
    ensures
        ({
            let (s, t) = (old(env)@, final(env)@);
            let contract = s.context.contract;
            let bet = s.bets[BetKey { market_id, user }];
            &&& crate::rule_laws::on_record(t, market_id, user) == Some(
                (Bet { status: BetStatus::Cancelled, ..bet }),
            )
            &&& forall|who: Address|
                who != user ==> #[trigger] crate::rule_laws::on_record(t, market_id, who)
                    == crate::rule_laws::on_record(s, market_id, who)
            &&& crate::rule_laws::listed(t, market_id) == crate::rule_laws::listed(s, market_id)
            &&& crate::rule_laws::counts_one_less(
                crate::rule_laws::counted(s, market_id),
                crate::rule_laws::counted(t, market_id),
                bet.outcome,
                bet.amount,
            )
            &&& t.markets.contains_key(market_id)
            &&& stake_taken_off(s.markets[market_id], t.markets[market_id], user, bet.amount)
            &&& other != market_id ==> market_untouched(s, t, other)
            &&& crate::rule_laws::transferred(s, t, contract, user, bet.amount as int)
            &&& t.effects == s.effects + seq![
                Effect::RequireAuth { address: user },
                Effect::Transfer { from: contract, to: user, amount: bet.amount },
                Effect::Publish {
                    event: Event::BetStatusUpdated {
                        market_id,
                        user,
                        old_status: BetStatus::Active,
                        new_status: BetStatus::Cancelled,
                        payout: Some(bet.amount),
                    },
                },
            ]
            &&& (LedgerView {
                balances: s.balances,
                bets: s.bets,
                stats: s.stats,
                markets: s.markets,
                effects: s.effects,
                ..t
            }) == s
        }),
{
    let s = old(env)@;
    let key = BetKey { market_id, user };
    assert(s.bets.contains_key(key));
    assert(crate::rule_laws::listed(s, market_id).contains(user.id));
}

} // verus!
