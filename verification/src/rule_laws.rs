//! What the rules of betting come to, in terms of the entries of a ledger and of
//! what each call gives back.
use vstd::prelude::*;

use crate::analytics::BetAnalytics;
use crate::error::Error;
use crate::funds::BetUtils;
use crate::host::IdList;
use crate::ledger::{Context, Effect, Event, Ledger, LedgerView, TtlEntry};
use crate::limits::{
    get_effective_bet_limits, get_market_max_bet_cap, remove_market_max_bet_cap,
    set_event_bet_limits, set_global_bet_limits, set_market_max_bet_cap, validate_limits_bounds,
};
use crate::manager::BetManager;
use crate::math::{checked_div, checked_mul_div, saturating_sub};
use crate::storage::BetStorage;
use crate::types::{
    Address, Bet, BetKey, BetLimits, BetRegistryKey, BetStats, BetStatsView, BetStatus, KeyTag,
    Market, MarketBetsKey, MarketState, MarketView, Outcome, Symbol, UserStakeKey,
};
use crate::validator::BetValidator;

verus! {

/// What `who` holds of the token; an account without an entry holds nothing.
pub open spec fn held(s: LedgerView, who: Address) -> int {
    if s.balances.contains_key(who) {
        s.balances[who] as int
    } else {
        0
    }
}

/// The bet on record for `user` and `market_id`.
pub open spec fn on_record(s: LedgerView, market_id: Symbol, user: Address) -> Option<Bet> {
    if s.bets.contains_key(BetKey { market_id, user }) {
        Some(s.bets[BetKey { market_id, user }])
    } else {
        None
    }
}

/// The users listed for `market_id`.
pub open spec fn listed(s: LedgerView, market_id: Symbol) -> Seq<u64> {
    if s.registries.contains_key(BetRegistryKey { tag: KeyTag::Registry, market_id }) {
        s.registries[BetRegistryKey { tag: KeyTag::Registry, market_id }]
    } else {
        Seq::empty()
    }
}

/// The statistics on record for `market_id`; all zero where there are none.
pub open spec fn counted(s: LedgerView, market_id: Symbol) -> BetStatsView {
    if s.stats.contains_key(MarketBetsKey { market_id }) {
        s.stats[MarketBetsKey { market_id }]
    } else {
        BetStatsView {
            total_bets: 0,
            total_amount_locked: 0,
            unique_bettors: 0,
            outcome_totals: Map::empty(),
        }
    }
}

/// The amount on record for an outcome; zero where there is none.
pub open spec fn standing_on(stats: BetStatsView, outcome: Outcome) -> int {
    if stats.outcome_totals.contains_key(outcome.id) {
        stats.outcome_totals[outcome.id] as int
    } else {
        0
    }
}

/// What is on record as staked by `user` on `market_id`.
pub open spec fn staked_so_far(s: LedgerView, market_id: Symbol, user: Address) -> int {
    if s.user_stakes.contains_key(UserStakeKey { user, market_id }) {
        s.user_stakes[UserStakeKey { user, market_id }] as int
    } else {
        0
    }
}

/// The least that may be bet on `market_id`.
pub open spec fn least(s: LedgerView, market_id: Symbol) -> int {
    if s.event_limits.contains_key(market_id.id) {
        s.event_limits[market_id.id].min_bet as int
    } else {
        match s.global_limits {
            Some(limits) => limits.min_bet as int,
            None => 1_000_000,
        }
    }
}

/// The most that may be bet on `market_id`.
pub open spec fn most(s: LedgerView, market_id: Symbol) -> int {
    if s.event_limits.contains_key(market_id.id) {
        s.event_limits[market_id.id].max_bet as int
    } else {
        match s.global_limits {
            Some(limits) => limits.max_bet as int,
            None => 100_000_000_000,
        }
    }
}

/// The platform fee in force, in basis points. A configuration that switches
/// fees off sets it to zero.
pub open spec fn fee_in_force(c: Context) -> int {
    match (c.config, c.fee_config, c.platform_fee) {
        (Some(config), _, _) => if config.fees_enabled {
            config.platform_fee_percentage as int
        } else {
            0
        },
        (None, Some(config), _) => if config.fees_enabled {
            config.platform_fee_percentage as int
        } else {
            0
        },
        (None, None, Some(fee)) => fee as int,
        (None, None, None) => 200,
    }
}

/// The platform fee that a caller's bound is held against once more for a batch.
pub open spec fn fee_for_slippage(c: Context) -> int {
    match (c.config, c.plat_fee) {
        (Some(config), _) => config.platform_fee_percentage as int,
        (None, Some(fee)) => fee as int,
        (None, None) => 200,
    }
}

/// Whether a number is one that an amount can have.
pub open spec fn representable(x: int) -> bool {
    -0x8000_0000_0000_0000_0000_0000_0000_0000 <= x
        <= 0x7fff_ffff_ffff_ffff_ffff_ffff_ffff_ffff
}

/// The amount that is nearest to a number.
pub open spec fn nearest(x: int) -> int {
    if x < -0x8000_0000_0000_0000_0000_0000_0000_0000 {
        -0x8000_0000_0000_0000_0000_0000_0000_0000
    } else if x > 0x7fff_ffff_ffff_ffff_ffff_ffff_ffff_ffff {
        0x7fff_ffff_ffff_ffff_ffff_ffff_ffff_ffff
    } else {
        x
    }
}

/// Whether a host map takes an entry under `id`.
pub open spec fn room_for(m: Map<u64, i128>, id: u64) -> bool {
    m.contains_key(id) || m.len() < 0xffff_ffff
}

/// The quotient of `x` and `d` with what is behind the point cut off.
pub open spec fn cut_quotient(x: int, d: int) -> int {
    if x >= 0 && d > 0 {
        x / d
    } else if x < 0 && d > 0 {
        -((-x) / d)
    } else if x >= 0 {
        -(x / (-d))
    } else {
        (-x) / (-d)
    }
}

/// The time from which on a market takes no bets.
pub open spec fn last_call(m: MarketView) -> u64 {
    if m.bet_deadline == 0 {
        m.end_time
    } else {
        m.bet_deadline
    }
}

/// Whether a market takes bets at `now`.
pub open spec fn takes_bets(m: MarketView, now: u64) -> bool {
    &&& m.state == MarketState::Active
    &&& m.min_pool_size matches Some(least) ==> least >= 0
    &&& m.bet_deadline <= m.end_time
    &&& now < last_call(m)
    &&& m.winning_outcomes is None
}

/// The error of a market that takes no bets at `now`.
pub open spec fn why_no_bets(m: MarketView, now: u64) -> Error {
    if m.state != MarketState::Active {
        Error::MarketClosed
    } else if m.min_pool_size matches Some(least) && least < 0 {
        Error::InvalidState
    } else if m.bet_deadline > m.end_time {
        Error::InvalidState
    } else if now >= last_call(m) {
        Error::MarketClosed
    } else {
        Error::MarketResolved
    }
}

/// Whether `amount` lies within the limits of `market_id` and under its cap.
pub open spec fn amount_allowed(s: LedgerView, market_id: Symbol, amount: i128) -> bool {
    &&& least(s, market_id) <= amount <= most(s, market_id)
    &&& s.market_caps.contains_key(market_id.id) ==> amount <= s.market_caps[market_id.id]
}

/// The error of an amount that is not allowed.
pub open spec fn why_not_amount(s: LedgerView, market_id: Symbol, amount: i128) -> Error {
    if amount < least(s, market_id) {
        Error::InsufficientStake
    } else if amount > most(s, market_id) {
        Error::InvalidInput
    } else {
        Error::BetExceedsCap
    }
}

/// Whether `user` may bet `amount` on `outcome` of `market_id`, funds aside.
pub open spec fn may_bet(
    s: LedgerView,
    user: Address,
    market_id: Symbol,
    outcome: Outcome,
    amount: i128,
) -> bool {
    &&& s.markets.contains_key(market_id)
    &&& takes_bets(s.markets[market_id], s.context.timestamp)
    &&& s.markets[market_id].outcomes.contains(outcome.id)
    &&& amount_allowed(s, market_id, amount)
    &&& on_record(s, market_id, user) matches Some(bet) ==> bet.status == BetStatus::Cancelled
}

/// The error of a bet that may not be made.
pub open spec fn why_no_bet(
    s: LedgerView,
    market_id: Symbol,
    outcome: Outcome,
    amount: i128,
) -> Error {
    if !s.markets.contains_key(market_id) {
        Error::MarketNotFound
    } else if !takes_bets(s.markets[market_id], s.context.timestamp) {
        why_no_bets(s.markets[market_id], s.context.timestamp)
    } else if !s.markets[market_id].outcomes.contains(outcome.id) {
        Error::InvalidOutcome
    } else if !amount_allowed(s, market_id, amount) {
        why_not_amount(s, market_id, amount)
    } else {
        Error::AlreadyBet
    }
}

/// A single amount is accepted between a tenth of a token and ten thousand.
pub proof fn law_amount_bounds(amount: i128, r: Result<(), Error>)
    requires
        call_ensures(BetValidator::validate_bet_amount, (amount,), r),
    ensures
        r is Ok <==> 1_000_000 <= amount <= 100_000_000_000,
        amount < 1_000_000 ==> r == Err::<(), Error>(Error::InsufficientStake),
        amount > 100_000_000_000 ==> r == Err::<(), Error>(Error::InvalidInput),
{
}

/// Limits are accepted in order and within the bounds on single amounts.
pub proof fn law_limits_bounds(limits: &BetLimits, r: Result<(), Error>)
    requires
        call_ensures(validate_limits_bounds, (limits,), r),
    ensures
        r is Ok <==> 1_000_000 <= limits.min_bet <= limits.max_bet <= 100_000_000_000,
        r matches Err(e) ==> e == (if limits.min_bet <= limits.max_bet && limits.min_bet
            < 1_000_000 {
            Error::InsufficientStake
        } else {
            Error::InvalidInput
        }),
{
}

/// The limits of a market are its own, else those for all markets, else the
/// bounds on single amounts.
pub proof fn law_limits_in_force(env: &Ledger, market_id: &Symbol, r: BetLimits)
    requires
        call_ensures(get_effective_bet_limits, (env, market_id), r),
    ensures
        r.min_bet == least(env@, *market_id),
        r.max_bet == most(env@, *market_id),
{
}

/// Setting limits for all markets is granted for limits within the bounds, is
/// what every market without limits of its own has afterwards, and changes
/// nothing else.
pub proof fn law_setting_global_limits(
    env: &mut Ledger,
    limits: &BetLimits,
    r: Result<(), Error>,
    market_id: Symbol,
)
    requires
        call_ensures(set_global_bet_limits, (env, limits), r),
    ensures
        ({
            let (s, t) = (old(env)@, final(env)@);
            &&& r is Ok <==> 1_000_000 <= limits.min_bet <= limits.max_bet <= 100_000_000_000
            &&& r matches Err(e) ==> e == (if limits.min_bet <= limits.max_bet && limits.min_bet
                < 1_000_000 {
                Error::InsufficientStake
            } else {
                Error::InvalidInput
            }) && t == s
            &&& r is Ok && !s.event_limits.contains_key(market_id.id) ==> least(t, market_id)
                == limits.min_bet && most(t, market_id) == limits.max_bet
            &&& s.event_limits.contains_key(market_id.id) ==> least(t, market_id) == least(
                s,
                market_id,
            ) && most(t, market_id) == most(s, market_id)
            &&& (LedgerView { global_limits: s.global_limits, ..t }) == s
        }),
{
}

/// Setting limits for one market is granted for limits within the bounds, is
/// what that market has afterwards, and changes nothing for another.
pub proof fn law_setting_event_limits(
    env: &mut Ledger,
    market_id: &Symbol,
    limits: &BetLimits,
    r: Result<(), Error>,
    other: u64,
)
    requires
        call_ensures(set_event_bet_limits, (env, market_id, limits), r),
    ensures
        ({
            let (s, t) = (old(env)@, final(env)@);
            let room = s.event_limits.contains_key(market_id.id) || s.event_limits.len()
                < 0xffff_ffff;
            &&& r is Ok <==> 1_000_000 <= limits.min_bet <= limits.max_bet <= 100_000_000_000
                && room
            &&& r matches Err(e) ==> e == (if limits.min_bet <= limits.max_bet && limits.min_bet
                < 1_000_000 {
                Error::InsufficientStake
            } else {
                Error::InvalidInput
            }) && t == s
            &&& r is Ok ==> least(t, *market_id) == limits.min_bet && most(t, *market_id)
                == limits.max_bet
            &&& other != market_id.id ==> t.event_limits.contains_key(other)
                == s.event_limits.contains_key(other) && (s.event_limits.contains_key(other)
                ==> t.event_limits[other] == s.event_limits[other])
            &&& (LedgerView { event_limits: s.event_limits, ..t }) == s
        }),
{
}

/// Capping single bets on a market is granted for a cap between zero and the
/// greatest amount; the cap is on record afterwards and no other changes.
pub proof fn law_setting_market_cap(
    env: &mut Ledger,
    market_id: &Symbol,
    cap: i128,
    r: Result<(), Error>,
    other: u64,
)
    requires
        call_ensures(set_market_max_bet_cap, (env, market_id, cap), r),
    ensures
        ({
            let (s, t) = (old(env)@, final(env)@);
            &&& r is Ok <==> 0 < cap <= 100_000_000_000 && room_for(s.market_caps, market_id.id)
            &&& r matches Err(e) ==> e == Error::InvalidInput && t == s
            &&& r is Ok ==> t.market_caps.contains_key(market_id.id) && t.market_caps[market_id.id]
                == cap
            &&& other != market_id.id ==> t.market_caps.contains_key(other)
                == s.market_caps.contains_key(other) && (s.market_caps.contains_key(other)
                ==> t.market_caps[other] == s.market_caps[other])
            &&& (LedgerView { market_caps: s.market_caps, ..t }) == s
        }),
{
}

/// Taking the cap off a market leaves it without one and changes no other.
pub proof fn law_removing_market_cap(env: &mut Ledger, market_id: &Symbol, other: u64)
    requires
        call_ensures(remove_market_max_bet_cap, (env, market_id), ()),
    ensures
        ({
            let (s, t) = (old(env)@, final(env)@);
            &&& !t.market_caps.contains_key(market_id.id)
            &&& other != market_id.id ==> t.market_caps.contains_key(other)
                == s.market_caps.contains_key(other) && (s.market_caps.contains_key(other)
                ==> t.market_caps[other] == s.market_caps[other])
            &&& (LedgerView { market_caps: s.market_caps, ..t }) == s
        }),
{
}

/// The cap of a market is the one on record.
pub proof fn law_market_cap_in_force(env: &Ledger, market_id: &Symbol, r: Option<i128>)
    requires
        call_ensures(get_market_max_bet_cap, (env, market_id), r),
    ensures
        r is Some <==> env@.market_caps.contains_key(market_id.id),
        r matches Some(cap) ==> cap == env@.market_caps[market_id.id],
{
}

/// A market takes bets while it is active, in order, without a result and before
/// its deadline, and each reason against it has its error.
pub proof fn law_markets_that_take_bets(env: &Ledger, market: &Market, r: Result<(), Error>)
    requires
        call_ensures(BetValidator::validate_market_for_betting, (env, market), r),
    ensures
        r is Ok <==> takes_bets(market@, env@.context.timestamp),
        r matches Err(e) ==> e == why_no_bets(market@, env@.context.timestamp),
{
}

/// A deadline of its own holds for a market, and the end where it has none; one
/// after the end is refused.
pub proof fn law_deadline_of_a_market(market: &Market, r: Result<u64, Error>)
    requires
        call_ensures(BetValidator::effective_bet_deadline, (market,), r),
    ensures
        r is Ok <==> market.bet_deadline <= market.end_time,
        r matches Ok(deadline) ==> deadline == (if market.bet_deadline == 0 {
            market.end_time
        } else {
            market.bet_deadline
        }),
        r matches Err(e) ==> e == Error::InvalidState,
{
}

/// A bet is on an outcome of its market and of an amount that the market takes.
pub proof fn law_parameters_of_a_bet(
    env: &Ledger,
    market_id: &Symbol,
    outcome: &Outcome,
    valid_outcomes: &IdList,
    amount: i128,
    r: Result<(), Error>,
)
    requires
        call_ensures(
            BetValidator::validate_bet_parameters,
            (env, market_id, outcome, valid_outcomes, amount),
            r,
        ),
    ensures
        r is Ok <==> valid_outcomes@.contains(outcome.id) && amount_allowed(
            env@,
            *market_id,
            amount,
        ),
        r matches Err(e) ==> e == (if !valid_outcomes@.contains(outcome.id) {
            Error::InvalidOutcome
        } else {
            why_not_amount(env@, *market_id, amount)
        }),
{
}

/// An amount is taken within the limits and the cap of its market.
pub proof fn law_amount_against_limits(
    env: &Ledger,
    market_id: &Symbol,
    amount: i128,
    r: Result<(), Error>,
)
    requires
        call_ensures(
            BetValidator::validate_bet_amount_against_limits,
            (env, market_id, amount),
            r,
        ),
    ensures
        r is Ok <==> amount_allowed(env@, *market_id, amount),
        r matches Err(e) ==> e == why_not_amount(env@, *market_id, amount),
{
}

/// A bet may be made on a market that takes it, by a user without a standing bet
/// there.
pub proof fn law_admission(
    env: &Ledger,
    user: &Address,
    market_id: &Symbol,
    outcome: &Outcome,
    amount: i128,
    r: Result<(), Error>,
)
    requires
        call_ensures(BetManager::check_admission, (env, user, market_id, outcome, amount), r),
    ensures
        r is Ok <==> may_bet(env@, *user, *market_id, *outcome, amount),
        r matches Err(e) ==> e == why_no_bet(env@, *market_id, *outcome, amount),
{
}

/// The fee in force is read from the configurations in their order.
pub proof fn law_fee_in_force(env: &Ledger, r: Result<i128, Error>)
    requires
        call_ensures(BetManager::get_live_fee_percentage, (env,), r),
    ensures
        r is Ok,
        r->Ok_0 == fee_in_force(env@.context),
{
}

/// A bound on the fee is kept, whatever it is, as long as it is above zero.
pub proof fn law_fee_bound_is_kept(env: &Ledger, max_fee_bps: i128, r: Result<(), Error>)
    requires
        call_ensures(BetManager::check_fee, (env, max_fee_bps), r),
    ensures
        r is Ok <==> max_fee_bps <= 0 || fee_in_force(env@.context) <= max_fee_bps,
        r matches Err(e) ==> e == Error::FeeExceedsMax,
{
}

/// The slippage check holds a fee against every bound.
pub proof fn law_slippage_bound_is_kept(env: &Ledger, max_fee_bps: i128, r: Result<(), Error>)
    requires
        call_ensures(BetValidator::validate_fee_slippage, (env, max_fee_bps), r),
    ensures
        r is Ok <==> fee_for_slippage(env@.context) <= max_fee_bps,
        r matches Err(e) ==> e == Error::FeeExceedsMax,
{
}

/// The cap on stakes is the one on record.
pub proof fn law_stake_cap_in_force(env: &Ledger, r: Option<i128>)
    requires
        call_ensures(BetValidator::get_max_bet_cap, (env,), r),
    ensures
        r == env@.max_bet_cap,
{
}

/// The cap on stakes is set by the admin, who has to authorise it, to a number
/// above zero; it is on record and published afterwards, and nothing else
/// changes.
pub proof fn law_setting_the_stake_cap(
    env: &mut Ledger,
    caller: &Address,
    cap: i128,
    r: Result<(), Error>,
)
    requires
        call_ensures(BetValidator::set_max_bet_cap, (env, caller, cap), r),
    ensures
        ({
            let (s, t) = (old(env)@, final(env)@);
            let n = s.effects.len() as int;
            &&& r is Ok <==> s.context.admin == Some(*caller) && cap > 0
            &&& r matches Err(e) ==> t == s && e == (match s.context.admin {
                None => Error::AdminNotSet,
                Some(admin) => if admin != *caller {
                    Error::Unauthorized
                } else {
                    Error::InvalidCap
                },
            })
            &&& r is Ok ==> {
                &&& t.max_bet_cap == Some(cap)
                &&& t.effects.len() == n + 3
                &&& t.effects.take(n) == s.effects
                &&& t.effects[n] == Effect::RequireAuth { address: *caller }
                &&& t.effects[n + 1] == (Effect::ExtendTtl {
                    entry: TtlEntry::MaxBetCap,
                    ledgers: s.context.market_ttl_ledgers,
                })
                &&& t.effects[n + 2] == Effect::Publish { event: Event::MaxBetCapSet { cap } }
            }
            &&& (LedgerView { max_bet_cap: s.max_bet_cap, effects: s.effects, ..t }) == s
        }),
{
    let s = old(env)@;
    let t = final(env)@;
    if r is Ok {
        assert(t.effects.take(s.effects.len() as int) =~= s.effects);
    }
}

/// What a user has staked is the sum on record, and zero before the first bet.
pub proof fn law_user_stake(env: &Ledger, market_id: &Symbol, user: &Address, r: i128)
    requires
        call_ensures(BetValidator::get_user_stake, (env, market_id, user), r),
    ensures
        r == staked_so_far(env@, *market_id, *user),
{
}

/// A stake after one more bet is the sum, where it can be written down and stays
/// under the cap.
pub proof fn law_next_user_stake(
    env: &Ledger,
    market_id: &Symbol,
    user: &Address,
    amount: i128,
    r: Result<i128, Error>,
    v: Result<(), Error>,
    u: Result<i128, Error>,
)
    requires
        call_ensures(
            BetValidator::prepare_user_stake_update,
            (env, market_id, user, amount),
            r,
        ),
        call_ensures(
            BetValidator::validate_user_stake_under_cap,
            (env, market_id, user, amount),
            v,
        ),
        call_ensures(BetValidator::sum_user_stake, (env, market_id, user, amount), u),
    ensures
        ({
            let sum = staked_so_far(env@, *market_id, *user) + amount;
            let under = env@.max_bet_cap matches Some(cap) ==> sum <= cap;
            let error = if representable(sum) {
                Error::MaxBetCapExceeded
            } else {
                Error::Overflow
            };
            &&& r is Ok <==> representable(sum) && under
            &&& r matches Ok(stake) ==> stake == sum
            &&& r matches Err(e) ==> e == error
            &&& v is Ok <==> r is Ok
            &&& v matches Err(e) ==> e == error
            &&& u is Ok <==> representable(sum)
            &&& u matches Ok(stake) ==> stake == sum
            &&& u matches Err(e) ==> e == Error::Overflow
        }),
{
}

/// Adding to a stake adds the amount to that stake and to no other.
pub proof fn law_adding_to_a_user_stake(
    env: &mut Ledger,
    market_id: &Symbol,
    user: &Address,
    amount: i128,
    r: Result<(), Error>,
    other: UserStakeKey,
)
    requires
        call_ensures(BetValidator::update_user_stake, (env, market_id, user, amount), r),
    ensures
        ({
            let (s, t) = (old(env)@, final(env)@);
            let key = UserStakeKey { user: *user, market_id: *market_id };
            let sum = staked_so_far(s, *market_id, *user) + amount;
            &&& r is Ok <==> representable(sum)
            &&& r matches Err(e) ==> e == Error::Overflow && t == s
            &&& r is Ok ==> staked_so_far(t, *market_id, *user) == sum && t.effects
                == s.effects.push(
                Effect::ExtendTtl {
                    entry: TtlEntry::UserStake { stake: key },
                    ledgers: s.context.market_ttl_ledgers,
                },
            )
            &&& other != key ==> staked_so_far(t, other.market_id, other.user) == staked_so_far(
                s,
                other.market_id,
                other.user,
            )
            &&& (LedgerView { user_stakes: s.user_stakes, effects: s.effects, ..t }) == s
        }),
{
}

/// Writing a stake writes that stake and no other.
pub proof fn law_writing_a_user_stake(
    env: &mut Ledger,
    market_id: &Symbol,
    user: &Address,
    stake: i128,
    other: UserStakeKey,
)
    requires
        call_ensures(BetValidator::store_user_stake, (env, market_id, user, stake), ()),
    ensures
        ({
            let (s, t) = (old(env)@, final(env)@);
            let key = UserStakeKey { user: *user, market_id: *market_id };
            &&& staked_so_far(t, *market_id, *user) == stake
            &&& other != key ==> staked_so_far(t, other.market_id, other.user) == staked_so_far(
                s,
                other.market_id,
                other.user,
            )
            &&& t.effects == s.effects.push(
                Effect::ExtendTtl {
                    entry: TtlEntry::UserStake { stake: key },
                    ledgers: s.context.market_ttl_ledgers,
                },
            )
            &&& (LedgerView { user_stakes: s.user_stakes, effects: s.effects, ..t }) == s
        }),
{
}

/// Storing a bet puts it on record under its own market and user, lists the user
/// at the end of the bettors where they are not listed yet, and changes nothing
/// else.
pub proof fn law_storing_a_bet(
    env: &mut Ledger,
    bet: &Bet,
    r: Result<(), Error>,
    other_market: Symbol,
    other_user: Address,
)
    requires
        call_ensures(BetStorage::store_bet, (env, bet), r),
    ensures
        ({
            let (s, t) = (old(env)@, final(env)@);
            let before = listed(s, bet.market_id);
            &&& r is Ok <==> before.contains(bet.user.id) || before.len() < 0xffff_ffff
            &&& r matches Err(e) ==> e == Error::InvalidInput && t == s
            &&& r is Ok ==> {
                &&& on_record(t, bet.market_id, bet.user) == Some(*bet)
                &&& listed(t, bet.market_id) == (if before.contains(bet.user.id) {
                    before
                } else {
                    before.push(bet.user.id)
                })
            }
            &&& other_market != bet.market_id || other_user != bet.user ==> on_record(
                t,
                other_market,
                other_user,
            ) == on_record(s, other_market, other_user)
            &&& other_market != bet.market_id ==> listed(t, other_market) == listed(s, other_market)
            &&& (LedgerView { bets: s.bets, registries: s.registries, ..t }) == s
        }),
{
}

/// Whether a bet can be stored is asked without storing it.
pub proof fn law_room_for_a_bet(
    env: &Ledger,
    market_id: &Symbol,
    user: &Address,
    r: Result<(), Error>,
)
    requires
        call_ensures(BetStorage::check_store, (env, market_id, user), r),
    ensures
        r is Ok <==> listed(env@, *market_id).contains(user.id) || listed(env@, *market_id).len()
            < 0xffff_ffff,
        r matches Err(e) ==> e == Error::InvalidInput,
{
}

/// Striking a bet takes it off the record, and nothing else.
pub proof fn law_striking_a_bet(
    env: &mut Ledger,
    market_id: &Symbol,
    user: &Address,
    other_market: Symbol,
    other_user: Address,
)
    requires
        call_ensures(BetStorage::remove_bet, (env, market_id, user), ()),
    ensures
        ({
            let (s, t) = (old(env)@, final(env)@);
            &&& on_record(t, *market_id, *user) is None
            &&& other_market != *market_id || other_user != *user ==> on_record(
                t,
                other_market,
                other_user,
            ) == on_record(s, other_market, other_user)
            &&& (LedgerView { bets: s.bets, ..t }) == s
        }),
{
}

/// Bets, bettors and statistics are read as they are on record.
pub proof fn law_reading_the_books(
    env: &Ledger,
    market_id: &Symbol,
    user: &Address,
    stored: Option<Bet>,
    bet: Option<Bet>,
    has: bool,
    bettors: IdList,
    stats: BetStats,
    same_stats: BetStats,
    summary: BetStats,
)
    requires
        call_ensures(BetStorage::get_bet, (env, market_id, user), stored),
        call_ensures(BetManager::get_bet, (env, market_id, user), bet),
        call_ensures(BetManager::has_user_bet, (env, market_id, user), has),
        call_ensures(BetStorage::get_all_bets_for_market, (env, market_id), bettors),
        call_ensures(BetStorage::get_market_bet_stats, (env, market_id), stats),
        call_ensures(BetManager::get_market_bet_stats, (env, market_id), same_stats),
        call_ensures(BetAnalytics::get_market_summary, (env, market_id), summary),
    ensures
        stored == on_record(env@, *market_id, *user),
        bet == on_record(env@, *market_id, *user),
        has == (on_record(env@, *market_id, *user) is Some),
        bettors@ == listed(env@, *market_id),
        stats@ == counted(env@, *market_id),
        same_stats@ == counted(env@, *market_id),
        summary@ == counted(env@, *market_id),
{
}

/// Statistics are written for one market, and nothing else changes.
pub proof fn law_writing_statistics(
    env: &mut Ledger,
    market_id: &Symbol,
    stats: &BetStats,
    r: Result<(), Error>,
    other: Symbol,
)
    requires
        call_ensures(BetStorage::store_market_bet_stats, (env, market_id, stats), r),
    ensures
        r is Ok,
        counted(final(env)@, *market_id) == stats@,
        other != *market_id ==> counted(final(env)@, other) == counted(old(env)@, other),
        (LedgerView { stats: old(env)@.stats, ..final(env)@ }) == old(env)@,
{
}

/// That `after` counts one bet of `amount` on `outcome` more than `before`.
pub open spec fn counts_one_more(
    before: BetStatsView,
    after: BetStatsView,
    outcome: Outcome,
    amount: i128,
) -> bool {
    &&& after.total_bets == before.total_bets + 1
    &&& after.unique_bettors == before.unique_bettors + 1
    &&& after.total_amount_locked == before.total_amount_locked + amount
    &&& after.outcome_totals.contains_key(outcome.id)
    &&& standing_on(after, outcome) == standing_on(before, outcome) + amount
    &&& forall|o: Outcome|
        o != outcome ==> after.outcome_totals.contains_key(o.id)
            == before.outcome_totals.contains_key(o.id) && #[trigger] standing_on(after, o)
            == standing_on(before, o)
}

/// Whether one bet more can be counted.
pub open spec fn can_count_one_more(before: BetStatsView, outcome: Outcome, amount: i128) -> bool {
    &&& before.total_bets < 0xffff_ffff
    &&& before.unique_bettors < 0xffff_ffff
    &&& representable(before.total_amount_locked + amount)
    &&& representable(standing_on(before, outcome) + amount)
    &&& room_for(before.outcome_totals, outcome.id)
}

/// The error of a bet that cannot be counted.
pub open spec fn why_not_counted(before: BetStatsView, outcome: Outcome, amount: i128) -> Error {
    if before.total_bets < 0xffff_ffff && before.unique_bettors < 0xffff_ffff && representable(
        before.total_amount_locked + amount,
    ) && representable(standing_on(before, outcome) + amount) {
        Error::InvalidInput
    } else {
        Error::Overflow
    }
}

/// Counting a bet adds one to the counts and its amount to the sums.
pub proof fn law_counting_a_bet(
    env: &Ledger,
    market_id: &Symbol,
    outcome: &Outcome,
    amount: i128,
    r: Result<BetStats, Error>,
)
    requires
        call_ensures(BetManager::prepare_market_bet_stats, (env, market_id, outcome, amount), r),
    ensures
        r is Ok <==> can_count_one_more(counted(env@, *market_id), *outcome, amount),
        r matches Ok(stats) ==> counts_one_more(
            counted(env@, *market_id),
            stats@,
            *outcome,
            amount,
        ),
        r matches Err(e) ==> e == why_not_counted(counted(env@, *market_id), *outcome, amount),
{
}

/// Counting a bet for a market changes the statistics of that market alone.
pub proof fn law_counting_a_bet_for_a_market(
    env: &mut Ledger,
    market_id: &Symbol,
    outcome: &Outcome,
    amount: i128,
    r: Result<(), Error>,
    other: Symbol,
)
    requires
        call_ensures(BetManager::update_market_bet_stats, (env, market_id, outcome, amount), r),
    ensures
        ({
            let (s, t) = (old(env)@, final(env)@);
            &&& r is Ok <==> can_count_one_more(counted(s, *market_id), *outcome, amount)
            &&& r is Ok ==> counts_one_more(
                counted(s, *market_id),
                counted(t, *market_id),
                *outcome,
                amount,
            )
            &&& r matches Err(e) ==> t == s && e == why_not_counted(
                counted(s, *market_id),
                *outcome,
                amount,
            )
            &&& other != *market_id ==> counted(t, other) == counted(s, other)
            &&& (LedgerView { stats: s.stats, ..t }) == s
        }),
{
}

/// That `after` counts one bet of `amount` on `outcome` less than `before`. No
/// count goes below zero, no amount beyond what can be said, and an outcome on which nothing is left is
/// dropped.
pub open spec fn counts_one_less(
    before: BetStatsView,
    after: BetStatsView,
    outcome: Outcome,
    amount: i128,
) -> bool {
    let left = standing_on(before, outcome) - amount;
    &&& after.total_bets == (if before.total_bets == 0 {
        0
    } else {
        before.total_bets - 1
    })
    &&& after.unique_bettors == (if before.unique_bettors == 0 {
        0
    } else {
        before.unique_bettors - 1
    })
    &&& after.total_amount_locked == nearest(before.total_amount_locked - amount)
    &&& after.outcome_totals.contains_key(outcome.id) <==> left > 0
    &&& left > 0 ==> standing_on(after, outcome) == nearest(left)
    &&& forall|o: Outcome|
        o != outcome ==> after.outcome_totals.contains_key(o.id)
            == before.outcome_totals.contains_key(o.id) && #[trigger] standing_on(after, o)
            == standing_on(before, o)
}

/// Uncounting a bet takes one from the counts and its amount from the sums.
pub proof fn law_uncounting_a_bet(
    env: &mut Ledger,
    market_id: &Symbol,
    outcome: &Outcome,
    amount: i128,
    r: Result<(), Error>,
    other: Symbol,
)
    requires
        call_ensures(
            BetManager::update_market_bet_stats_on_cancel,
            (env, market_id, outcome, amount),
            r,
        ),
    ensures
        ({
            let (s, t) = (old(env)@, final(env)@);
            let before = counted(s, *market_id);
            &&& r is Ok <==> standing_on(before, *outcome) - amount <= 0 || room_for(
                before.outcome_totals,
                outcome.id,
            )
            &&& r is Ok ==> counts_one_less(before, counted(t, *market_id), *outcome, amount)
            &&& r matches Err(e) ==> e == Error::InvalidInput && t == s
            &&& other != *market_id ==> counted(t, other) == counted(s, other)
            &&& (LedgerView { stats: s.stats, ..t }) == s
        }),
{
}

/// The same holds of the statistics that are only prepared.
pub proof fn law_uncounting_without_writing(
    env: &Ledger,
    market_id: &Symbol,
    outcome: &Outcome,
    amount: i128,
    r: Result<BetStats, Error>,
)
    requires
        call_ensures(
            BetManager::prepare_market_bet_stats_on_cancel,
            (env, market_id, outcome, amount),
            r,
        ),
    ensures
        r is Ok <==> standing_on(counted(env@, *market_id), *outcome) - amount <= 0 || room_for(
            counted(env@, *market_id).outcome_totals,
            outcome.id,
        ),
        r matches Ok(stats) ==> counts_one_less(
            counted(env@, *market_id),
            stats@,
            *outcome,
            amount,
        ),
        r matches Err(e) ==> e == Error::InvalidInput,
{
}

/// Whether a transfer of `amount` can be made.
pub open spec fn can_transfer(s: LedgerView, from: Address, to: Address, amount: i128) -> bool {
    &&& s.context.token is Some
    &&& 0 <= amount <= held(s, from)
    &&& from == to || representable(held(s, to) + amount)
}

/// The error of a transfer that cannot be made, where `busy` says that one of the
/// kind is being made.
pub open spec fn why_no_transfer(
    s: LedgerView,
    busy: bool,
    from: Address,
    amount: i128,
) -> Error {
    if s.context.token is None {
        Error::InvalidInput
    } else if busy {
        Error::InvalidState
    } else if amount < 0 {
        Error::InvalidInput
    } else if amount > held(s, from) {
        Error::InsufficientBalance
    } else {
        Error::Overflow
    }
}

/// That a transfer of `amount` lies between the balances of two ledgers: the
/// payer has that much less, the receiver that much more, and nobody else is
/// touched.
pub open spec fn transferred(
    s: LedgerView,
    t: LedgerView,
    from: Address,
    to: Address,
    amount: int,
) -> bool {
    forall|who: Address| #[trigger]
        held(t, who) == held(s, who) - (if who == from {
            amount
        } else {
            0
        }) + (if who == to {
            amount
        } else {
            0
        })
}

/// Locking funds takes them from the user and gives them to the contract.
pub proof fn law_locking_funds(
    env: &mut Ledger,
    user: &Address,
    amount: i128,
    r: Result<(), Error>,
)
    requires
        call_ensures(BetUtils::lock_funds, (env, user, amount), r),
    ensures
        ({
            let (s, t) = (old(env)@, final(env)@);
            let contract = s.context.contract;
            &&& r is Ok <==> !s.context.locks.lock_funds && can_transfer(s, *user, contract, amount)
            &&& r matches Err(e) ==> t == s && e == why_no_transfer(
                s,
                s.context.locks.lock_funds,
                *user,
                amount,
            )
            &&& r is Ok ==> transferred(s, t, *user, contract, amount as int) && t.effects
                == s.effects.push(Effect::Transfer { from: *user, to: contract, amount })
            &&& (LedgerView { balances: s.balances, effects: s.effects, ..t }) == s
        }),
{
}

/// Unlocking funds takes them from the contract and gives them to the user.
pub proof fn law_unlocking_funds(
    env: &mut Ledger,
    user: &Address,
    amount: i128,
    r: Result<(), Error>,
)
    requires
        call_ensures(BetUtils::unlock_funds, (env, user, amount), r),
    ensures
        ({
            let (s, t) = (old(env)@, final(env)@);
            let contract = s.context.contract;
            &&& r is Ok <==> !s.context.locks.unlock_funds && can_transfer(
                s,
                contract,
                *user,
                amount,
            )
            &&& r matches Err(e) ==> t == s && e == why_no_transfer(
                s,
                s.context.locks.unlock_funds,
                contract,
                amount,
            )
            &&& r is Ok ==> transferred(s, t, contract, *user, amount as int) && t.effects
                == s.effects.push(Effect::Transfer { from: contract, to: *user, amount })
            &&& (LedgerView { balances: s.balances, effects: s.effects, ..t }) == s
        }),
{
}

/// Whether funds can be locked or unlocked is asked without moving them.
pub proof fn law_asking_for_a_transfer(
    env: &Ledger,
    user: &Address,
    amount: i128,
    lock: Result<(), Error>,
    unlock: Result<(), Error>,
)
    requires
        call_ensures(BetUtils::check_lock, (env, user, amount), lock),
        call_ensures(BetUtils::check_unlock, (env, user, amount), unlock),
    ensures
        ({
            let s = env@;
            let contract = s.context.contract;
            &&& lock is Ok <==> !s.context.locks.lock_funds && can_transfer(
                s,
                *user,
                contract,
                amount,
            )
            &&& lock matches Err(e) ==> e == why_no_transfer(
                s,
                s.context.locks.lock_funds,
                *user,
                amount,
            )
            &&& unlock is Ok <==> !s.context.locks.unlock_funds && can_transfer(
                s,
                contract,
                *user,
                amount,
            )
            &&& unlock matches Err(e) ==> e == why_no_transfer(
                s,
                s.context.locks.unlock_funds,
                contract,
                amount,
            )
        }),
{
}

/// Balances are read as they are on record, where there is a token.
pub proof fn law_reading_balances(
    env: &Ledger,
    user: &Address,
    amount: i128,
    locked: Result<i128, Error>,
    enough: Result<bool, Error>,
)
    requires
        call_ensures(BetUtils::get_contract_balance, (env,), locked),
        call_ensures(BetUtils::has_sufficient_balance, (env, user, amount), enough),
    ensures
        locked is Ok <==> env@.context.token is Some,
        locked matches Ok(balance) ==> balance == held(env@, env@.context.contract),
        locked matches Err(e) ==> e == Error::InvalidInput,
        enough is Ok <==> env@.context.token is Some,
        enough matches Ok(yes) ==> yes == (held(env@, *user) >= amount),
        enough matches Err(e) ==> e == Error::InvalidInput,
{
}

/// The implied probability is the percentage of the locked amount that stands on
/// the outcome, cut off at the point; zero where nothing is locked or the step
/// does not fit.
pub proof fn law_implied_probability(
    env: &Ledger,
    market_id: &Symbol,
    outcome: &Outcome,
    r: i128,
)
    requires
        call_ensures(
            BetAnalytics::calculate_implied_probability,
            (env, market_id, outcome),
            r,
        ),
    ensures
        ({
            let stats = counted(env@, *market_id);
            let part = standing_on(stats, *outcome) * 100;
            let whole = stats.total_amount_locked as int;
            let fits = whole != 0 && representable(part) && representable(
                cut_quotient(part, whole),
            );
            &&& fits ==> r == cut_quotient(part, whole)
            &&& !fits ==> r == 0
        }),
{
    law_cut_quotient_is_the_quotient(
        standing_on(counted(env@, *market_id), *outcome) * 100,
        counted(env@, *market_id).total_amount_locked as int,
    );
}

/// The multiplier is the locked amount in hundredths of what stands on the
/// outcome, cut off at the point; zero where nothing stands on it or the step does
/// not fit.
pub proof fn law_payout_multiplier(env: &Ledger, market_id: &Symbol, outcome: &Outcome, r: i128)
    requires
        call_ensures(BetAnalytics::calculate_payout_multiplier, (env, market_id, outcome), r),
    ensures
        ({
            let stats = counted(env@, *market_id);
            let part = standing_on(stats, *outcome);
            let whole = stats.total_amount_locked * 100;
            let fits = part != 0 && representable(whole) && representable(
                cut_quotient(whole, part),
            );
            &&& fits ==> r == cut_quotient(whole, part)
            &&& !fits ==> r == 0
        }),
{
    law_cut_quotient_is_the_quotient(
        counted(env@, *market_id).total_amount_locked * 100,
        standing_on(counted(env@, *market_id), *outcome),
    );
}

/// A quotient leaves a rest that is smaller than the divisor and has the sign of
/// the dividend.
pub proof fn law_cut_quotient_is_the_quotient(x: int, d: int)
    ensures
        d != 0 ==> crate::math::trunc_div(x, d) == cut_quotient(x, d),
        d > 0 && x >= 0 ==> cut_quotient(x, d) * d <= x < (cut_quotient(x, d) + 1) * d,
{
    if d > 0 {
        assert(0int / d == 0) by (nonlinear_arith)
            requires
                d > 0,
        ;
    }
    if d < 0 {
        let n = -d;
        assert(0int / n == 0) by (nonlinear_arith)
            requires
                n > 0,
        ;
    }
    if d > 0 && x >= 0 {
        let q = x / d;
        assert(q * d <= x < (q + 1) * d) by (nonlinear_arith)
            requires
                q == x / d,
                x >= 0,
                d > 0,
        ;
    }
}

/// The arithmetic on amounts is that of numbers, where the result fits; a
/// difference that does not stops at the bound it passes.
pub proof fn law_arithmetic(
    a: i128,
    b: i128,
    c: i128,
    quotient: Option<i128>,
    scaled: Option<i128>,
    difference: i128,
)
    requires
        call_ensures(checked_div, (a, b), quotient),
        call_ensures(checked_mul_div, (a, b, c), scaled),
        call_ensures(saturating_sub, (a, b), difference),
    ensures
        quotient is Some <==> b != 0 && representable(cut_quotient(a as int, b as int)),
        quotient matches Some(q) ==> q == cut_quotient(a as int, b as int),
        scaled is Some <==> c != 0 && representable(a * b) && representable(
            cut_quotient(a * b, c as int),
        ),
        scaled matches Some(q) ==> q == cut_quotient(a * b, c as int),
        difference == nearest(a - b),
{
    law_cut_quotient_is_the_quotient(a as int, b as int);
    law_cut_quotient_is_the_quotient(a * b, c as int);
}

} // verus!
