//! What the records of betting are when they are made, read and changed.
use vstd::prelude::*;

use crate::error::Error;
use crate::funds::BetUtils;
use crate::host::{IdList, IdMap};
use crate::ledger::{Context, Effect, GuardScope, Ledger, LedgerView, Locks};
use crate::types::{Address, Bet, BetStatus, Market, MarketState, Outcome, Symbol};

verus! {

/// A bet is what it is made of, and active at first.
pub proof fn law_new_bets_are_active(
    user: Address,
    market_id: Symbol,
    outcome: Outcome,
    amount: i128,
    timestamp: u64,
    bet: Bet,
)
    requires
        call_ensures(Bet::new, (user, market_id, outcome, amount, timestamp), bet),
    ensures
        bet.user == user,
        bet.market_id == market_id,
        bet.outcome == outcome,
        bet.amount == amount,
        bet.timestamp == timestamp,
        bet.status == BetStatus::Active,
{
}

/// A bet is active, resolved, or neither; only a won one is a winner, and every
/// winner is resolved.
pub proof fn law_states_of_a_bet(bet: &Bet, active: bool, resolved: bool, winner: bool)
    requires
        call_ensures(Bet::is_active, (bet,), active),
        call_ensures(Bet::is_resolved, (bet,), resolved),
        call_ensures(Bet::is_winner, (bet,), winner),
    ensures
        match bet.status {
            BetStatus::Active => active && !resolved && !winner,
            BetStatus::Won => !active && resolved && winner,
            BetStatus::Lost => !active && resolved && !winner,
            BetStatus::Refunded => !active && !resolved && !winner,
            BetStatus::Cancelled => !active && !resolved && !winner,
        },
{
}

/// Marking a bet as won changes its status alone.
pub proof fn law_marking_as_won(bet: &mut Bet)
    requires
        call_ensures(Bet::mark_as_won, (bet,), ()),
    ensures
        final(bet).status == BetStatus::Won,
        (Bet { status: old(bet).status, ..*final(bet) }) == *old(bet),
{
}

/// Marking a bet as lost changes its status alone.
pub proof fn law_marking_as_lost(bet: &mut Bet)
    requires
        call_ensures(Bet::mark_as_lost, (bet,), ()),
    ensures
        final(bet).status == BetStatus::Lost,
        (Bet { status: old(bet).status, ..*final(bet) }) == *old(bet),
{
}

/// Marking a bet as refunded changes its status alone.
pub proof fn law_marking_as_refunded(bet: &mut Bet)
    requires
        call_ensures(Bet::mark_as_refunded, (bet,), ()),
    ensures
        final(bet).status == BetStatus::Refunded,
        (Bet { status: old(bet).status, ..*final(bet) }) == *old(bet),
{
}

/// Every status has the name under which it is published, and different statuses
/// have different names.
pub proof fn law_names_tell_statuses_apart(
    a: &BetStatus,
    b: &BetStatus,
    name_a: &'static str,
    name_b: &'static str,
)
    requires
        call_ensures(BetStatus::name, (a,), name_a),
        call_ensures(BetStatus::name, (b,), name_b),
    ensures
        name_a@ == name_b@ <==> *a == *b,
        name_a@ == (match *a {
            BetStatus::Active => seq!['A', 'c', 't', 'i', 'v', 'e'],
            BetStatus::Won => seq!['W', 'o', 'n'],
            BetStatus::Lost => seq!['L', 'o', 's', 't'],
            BetStatus::Refunded => seq!['R', 'e', 'f', 'u', 'n', 'd', 'e', 'd'],
            BetStatus::Cancelled => seq!['C', 'a', 'n', 'c', 'e', 'l', 'l', 'e', 'd'],
        }),
{
    reveal_strlit("Active");
    reveal_strlit("Won");
    reveal_strlit("Lost");
    reveal_strlit("Refunded");
    reveal_strlit("Cancelled");
    assert(name_a@ =~= (match *a {
        BetStatus::Active => seq!['A', 'c', 't', 'i', 'v', 'e'],
        BetStatus::Won => seq!['W', 'o', 'n'],
        BetStatus::Lost => seq!['L', 'o', 's', 't'],
        BetStatus::Refunded => seq!['R', 'e', 'f', 'u', 'n', 'd', 'e', 'd'],
        BetStatus::Cancelled => seq!['C', 'a', 'n', 'c', 'e', 'l', 'l', 'e', 'd'],
    }));
    if *a != *b {
        assert(name_a@.len() != name_b@.len() || name_a@[0] != name_b@[0]);
    }
}

/// Every guarded section has the symbol that it is locked under.
pub proof fn law_symbols_of_sections(scope: &GuardScope, name: &'static str)
    requires
        call_ensures(GuardScope::name, (scope,), name),
    ensures
        name@ == (match *scope {
            GuardScope::PlaceBet => seq!['p', 'l', 'a', 'c', 'e', '_', 'b', 'e', 't'],
            GuardScope::PlaceBets => seq!['b', 'a', 't', 'c', 'h', '_', 'b', 'e', 't'],
            GuardScope::LockFunds => seq!['l', 'o', 'c', 'k', '_', 'f', 'n'],
            GuardScope::UnlockFunds => seq!['u', 'l', 'c', 'k', '_', 'f', 'n'],
        }),
{
    reveal_strlit("place_bet");
    reveal_strlit("batch_bet");
    reveal_strlit("lock_fn");
    reveal_strlit("ulck_fn");
    assert(name@ =~= (match *scope {
        GuardScope::PlaceBet => seq!['p', 'l', 'a', 'c', 'e', '_', 'b', 'e', 't'],
        GuardScope::PlaceBets => seq!['b', 'a', 't', 'c', 'h', '_', 'b', 'e', 't'],
        GuardScope::LockFunds => seq!['l', 'o', 'c', 'k', '_', 'f', 'n'],
        GuardScope::UnlockFunds => seq!['u', 'l', 'c', 'k', '_', 'f', 'n'],
    }));
}

/// A market is what it is made of, with nothing staked on it, no deadline of its
/// own, no least pool and no result.
pub proof fn law_new_markets_are_empty(
    env: &soroban_sdk::Env,
    outcomes: IdList,
    end_time: u64,
    state: MarketState,
    market: Market,
)
    requires
        call_ensures(Market::new, (env, outcomes, end_time, state), market),
    ensures
        market@.outcomes == outcomes@,
        market@.end_time == end_time,
        market@.state == state,
        market@.bet_deadline == 0,
        market@.min_pool_size is None,
        market@.winning_outcomes is None,
        market@.total_staked == 0,
        forall|id: u64| !#[trigger] market@.votes.contains_key(id),
        forall|id: u64| !#[trigger] market@.stakes.contains_key(id),
{
}

/// Staking is possible where there is room; it writes the vote, the stake and the
/// total. Taking a stake back strikes both and lowers the total.
pub proof fn law_staking_on_a_market(
    market: &Market,
    user: Address,
    outcome: Outcome,
    amount: i128,
    total: i128,
    staked: Option<Market>,
    unstaked: Market,
    copied: Market,
)
    requires
        call_ensures(Market::staked, (market, user, outcome, amount, total), staked),
        call_ensures(Market::unstaked, (market, user, amount), unstaked),
        call_ensures(Market::copy, (market,), copied),
    ensures
        staked is Some <==> crate::rule_laws::room_for(market@.votes, user.id)
            && crate::rule_laws::room_for(market@.stakes, user.id),
        staked matches Some(next) ==> next@.total_staked == total && (total == market.total_staked
            + amount ==> crate::bet_laws::stake_added(market@, next@, user, outcome, amount)),
        crate::bet_laws::stake_taken_off(market@, unstaked@, user, amount),
        copied@ == market@,
{
}

/// A map gives back what was put in last, takes an entry where there is room, and
/// keeps the others.
pub proof fn law_maps_of_amounts(
    map: &IdMap,
    id: u64,
    amount: i128,
    found: Option<i128>,
    has: bool,
    added: Option<IdMap>,
    removed: IdMap,
    other: u64,
)
    requires
        call_ensures(IdMap::get, (map, id), found),
        call_ensures(IdMap::contains_key, (map, id), has),
        call_ensures(IdMap::with, (map, id, amount), added),
        call_ensures(IdMap::without, (map, id), removed),
    ensures
        has == map@.contains_key(id),
        found is Some <==> map@.contains_key(id),
        found matches Some(value) ==> value == map@[id],
        added is Some <==> map@.contains_key(id) || map@.len() < 0xffff_ffff,
        added matches Some(next) ==> next@.contains_key(id) && next@[id] == amount && (other != id
            ==> next@.contains_key(other) == map@.contains_key(other) && next@[other]
            == map@[other]),
        !removed@.contains_key(id),
        other != id ==> removed@.contains_key(other) == map@.contains_key(other) && (
        map@.contains_key(other) ==> removed@[other] == map@[other]),
{
}

/// A list gives its items in the order in which they were added.
pub proof fn law_lists_of_ids(
    list: &IdList,
    i: u32,
    id: u64,
    len: u32,
    found: Option<u64>,
    has: bool,
    added: Option<IdList>,
)
    requires
        call_ensures(IdList::len, (list,), len),
        call_ensures(IdList::get, (list, i), found),
        call_ensures(IdList::contains, (list, id), has),
        call_ensures(IdList::with_last, (list, id), added),
    ensures
        len == list@.len(),
        found is Some <==> i < list@.len(),
        found matches Some(x) ==> x == list@[i as int],
        has == list@.contains(id),
        added is Some <==> list@.len() < 0xffff_ffff,
        added matches Some(next) ==> next@.len() == list@.len() + 1 && next@[list@.len() as int]
            == id && next@.take(list@.len() as int) == list@,
{
    if added is Some {
        assert(added->0@.take(list@.len() as int) =~= list@);
    }
}

/// A ledger starts without entries.
pub proof fn law_new_ledgers_are_empty(
    host: soroban_sdk::Env,
    context: Context,
    ledger: Ledger,
    market_id: Symbol,
    user: Address,
)
    requires
        call_ensures(Ledger::new, (host, context), ledger),
    ensures
        ({
            let s = ledger@;
            &&& s.context == context
            &&& s.bets_left is None
            &&& crate::rule_laws::held(s, user) == 0
            &&& crate::rule_laws::least(s, market_id) == 1_000_000
            &&& crate::rule_laws::most(s, market_id) == 100_000_000_000
            &&& !s.market_caps.contains_key(market_id.id)
            &&& s.max_bet_cap is None
            &&& crate::rule_laws::on_record(s, market_id, user) is None
            &&& crate::rule_laws::listed(s, market_id).len() == 0
            &&& crate::rule_laws::staked_so_far(s, market_id, user) == 0
            &&& crate::rule_laws::counted(s, market_id).total_bets == 0
            &&& crate::rule_laws::counted(s, market_id).total_amount_locked == 0
            &&& crate::rule_laws::counted(s, market_id).unique_bettors == 0
            &&& !s.markets.contains_key(market_id)
            &&& !s.resolutions.contains_key(market_id)
            &&& s.batches == Map::<crate::types::BatchKey, bool>::empty()
            &&& s.effects.len() == 0
        }),
{
}

/// A market is found where it is on record, and a balance is the one on record.
pub proof fn law_reading_markets_and_balances(
    env: &Ledger,
    market_id: &Symbol,
    who: &Address,
    market: Result<&Market, Error>,
    balance: i128,
)
    requires
        call_ensures(Ledger::market, (env, market_id), market),
        call_ensures(Ledger::balance, (env, who), balance),
    ensures
        market is Ok <==> env@.markets.contains_key(*market_id),
        market matches Ok(found) ==> found@ == env@.markets[*market_id],
        market matches Err(e) ==> e == Error::MarketNotFound,
        balance == crate::rule_laws::held(env@, *who),
{
}

/// Writing a market writes that market and nothing else.
pub proof fn law_writing_a_market(
    env: &mut Ledger,
    market_id: Symbol,
    market: Market,
    other: Symbol,
)
    requires
        call_ensures(Ledger::put_market, (env, market_id, market), ()),
    ensures
        final(env)@.markets.contains_key(market_id),
        final(env)@.markets[market_id] == market@,
        other != market_id ==> final(env)@.markets.contains_key(other)
            == old(env)@.markets.contains_key(other) && final(env)@.markets[other]
            == old(env)@.markets[other],
        (LedgerView { markets: old(env)@.markets, ..final(env)@ }) == old(env)@,
{
}

/// An effect is asked for after all the others, and nothing else changes.
pub proof fn law_asking_for_an_effect(env: &mut Ledger, effect: Effect)
    requires
        call_ensures(Ledger::ask, (env, effect), ()),
    ensures
        ({
            let n = old(env)@.effects.len() as int;
            &&& final(env)@.effects.len() == n + 1
            &&& final(env)@.effects[n] == effect
            &&& final(env)@.effects.take(n) == old(env)@.effects
            &&& (LedgerView { effects: old(env)@.effects, ..final(env)@ }) == old(env)@
        }),
{
    let n = old(env)@.effects.len() as int;
    assert(final(env)@.effects.take(n) =~= old(env)@.effects);
}

/// A section is entered unless it is running; transfers need a token as well.
pub proof fn law_entering_a_section(
    env: &Ledger,
    locks: &Locks,
    scope: GuardScope,
    entered: Result<(), Error>,
    open: Result<(), Error>,
)
    requires
        call_ensures(Locks::enter, (locks, scope), entered),
        call_ensures(BetUtils::check_open, (env, scope), open),
        env@.context.locks == *locks,
    ensures
        ({
            let running = match scope {
                GuardScope::PlaceBet => locks.place_bet,
                GuardScope::PlaceBets => locks.place_bets,
                GuardScope::LockFunds => locks.lock_funds,
                GuardScope::UnlockFunds => locks.unlock_funds,
            };
            &&& entered is Ok <==> !running
            &&& entered matches Err(e) ==> e == Error::InvalidState
            &&& open is Ok <==> env@.context.token is Some && !running
            &&& open matches Err(e) ==> e == (if env@.context.token is None {
                Error::InvalidInput
            } else {
                Error::InvalidState
            })
        }),
{
}

} // verus!
