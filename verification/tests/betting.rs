use predictify_bets::analytics::BetAnalytics;
use predictify_bets::batch::PLACE_BETS_IDEM_TTL_LEDGERS;
use predictify_bets::error::Error;
use predictify_bets::funds::BetUtils;
use predictify_bets::host::{IdList, IdMap};
use predictify_bets::ledger::{
    Context, Effect, Event, FeeSettings, GuardScope, Ledger, Locks, ResolutionSummary, TtlEntry,
};
use predictify_bets::limits::{
    get_effective_bet_limits, set_event_bet_limits, set_global_bet_limits, set_market_max_bet_cap,
    validate_limits_bounds, MAX_BATCH_SIZE, MAX_BET_AMOUNT, MIN_BET_AMOUNT,
};
use predictify_bets::manager::BetManager;
use predictify_bets::math::{checked_div, checked_mul_div, saturating_sub};
use predictify_bets::storage::BetStorage;
use predictify_bets::types::{
    Address, BatchKey, BatchToken, Bet, BetLimits, BetStats, BetStatus, Market, MarketState,
    Outcome, Symbol, UserStakeKey,
};
use predictify_bets::validator::{BetValidator, DEFAULT_PLATFORM_FEE_PERCENTAGE};
use soroban_sdk::testutils::EnvTestConfig;
use soroban_sdk::Env;

const CONTRACT: Address = Address { id: 1 };
const ALICE: Address = Address { id: 11 };
const BOB: Address = Address { id: 12 };
const CAROL: Address = Address { id: 13 };
const MARKET: Symbol = Symbol { id: 101 };
const SECOND: Symbol = Symbol { id: 102 };
const YES: Outcome = Outcome { id: 201 };
const NO: Outcome = Outcome { id: 202 };
const DRAW: Outcome = Outcome { id: 203 };
const TOKEN: BatchToken = BatchToken { high: 7, low: 9 };
const TTL: u32 = 1_000;
const FUNDS: i128 = 50_000_000;

fn host() -> Env {
    Env::new_with_config(EnvTestConfig { capture_snapshot_at_drop: false })
}

fn list(env: &Env, outcomes: &[Outcome]) -> IdList {
    let mut l = IdList::new(env);
    for o in outcomes {
        l = l.with_last(o.id).unwrap();
    }
    l
}

fn open_market(env: &Ledger) -> Market {
    Market::new(&env.host, list(&env.host, &[YES, NO, DRAW]), 1_000, MarketState::Active)
}

fn empty_ledger() -> Ledger {
    Ledger::new(
        host(),
        Context {
            timestamp: 500,
            contract: CONTRACT,
            token: Some(Address { id: 2 }),
            admin: Some(Address { id: 3 }),
            config: None,
            fee_config: None,
            platform_fee: None,
            plat_fee: None,
            betting_paused: false,
            cancelling_paused: false,
            resolving_paused: false,
            refunding_paused: false,
            locks: Locks {
                place_bet: false,
                place_bets: false,
                lock_funds: false,
                unlock_funds: false,
            },
            market_ttl_ledgers: TTL,
        },
    )
}

fn ledger() -> Ledger {
    let mut env = empty_ledger();
    let first = open_market(&env);
    env.put_market(MARKET, first);
    let second = open_market(&env);
    env.put_market(SECOND, second);
    env.balances.set(ALICE, FUNDS);
    env.balances.set(BOB, FUNDS);
    env.balances.set(CAROL, FUNDS);
    env
}

fn place(env: &mut Ledger, user: Address, outcome: Outcome, amount: i128) -> Result<Bet, Error> {
    BetManager::place_bet(env, user, MARKET, outcome, amount, 0)
}

/// The error that placing a bet of Alice gives, with the ledger left alone.
fn refused(env: &mut Ledger, outcome: Outcome, amount: i128, max_fee_bps: i128) -> Error {
    let effects = env.effects.len();
    let held = env.balance(&ALICE);
    let before = BetStorage::get_bet(env, &MARKET, &ALICE);
    let bettors = BetStorage::get_all_bets_for_market(env, &MARKET).len();
    let r = BetManager::place_bet(env, ALICE, MARKET, outcome, amount, max_fee_bps);
    assert_eq!(env.effects.len(), effects);
    assert_eq!(env.balance(&ALICE), held);
    assert_eq!(BetStorage::get_bet(env, &MARKET, &ALICE), before);
    assert_eq!(BetStorage::get_all_bets_for_market(env, &MARKET).len(), bettors);
    r.unwrap_err()
}

#[test]
fn placed_bet_is_filed_paid_and_published() {
    let mut env = ledger();
    env.bets_left = Some(3);
    let bet = place(&mut env, ALICE, YES, 2_000_000).unwrap();
    assert_eq!(
        bet,
        Bet {
            user: ALICE,
            market_id: MARKET,
            outcome: YES,
            amount: 2_000_000,
            timestamp: 500,
            status: BetStatus::Active,
        }
    );
    assert_eq!(BetManager::get_bet(&env, &MARKET, &ALICE), Some(bet));
    assert!(BetManager::has_user_bet(&env, &MARKET, &ALICE));
    assert!(!BetManager::has_user_bet(&env, &SECOND, &ALICE));
    assert_eq!(env.bets_left, Some(2));
    assert_eq!(env.balance(&ALICE), FUNDS - 2_000_000);
    assert_eq!(env.balance(&CONTRACT), 2_000_000);
    assert_eq!(BetValidator::get_user_stake(&env, &MARKET, &ALICE), 2_000_000);
    let stats = BetManager::get_market_bet_stats(&env, &MARKET);
    assert_eq!(stats.total_bets, 1);
    assert_eq!(stats.unique_bettors, 1);
    assert_eq!(stats.total_amount_locked, 2_000_000);
    assert_eq!(stats.outcome_totals.get(YES.id), Some(2_000_000));
    assert_eq!(stats.outcome_totals.get(NO.id), None);
    let market = env.market(&MARKET).unwrap();
    assert_eq!(market.total_staked, 2_000_000);
    assert_eq!(market.votes.get(ALICE.id), Some(YES.id as i128));
    assert_eq!(market.stakes.get(ALICE.id), Some(2_000_000));
    let stake = UserStakeKey { user: ALICE, market_id: MARKET };
    assert_eq!(
        env.effects,
        vec![
            Effect::RequireAuth { address: ALICE },
            Effect::Transfer { from: ALICE, to: CONTRACT, amount: 2_000_000 },
            Effect::ExtendTtl { entry: TtlEntry::UserStake { stake }, ledgers: TTL },
            Effect::Publish {
                event: Event::BetPlaced {
                    market_id: MARKET,
                    user: ALICE,
                    outcome: YES,
                    amount: 2_000_000,
                },
            },
        ]
    );
}

#[test]
fn second_bet_on_a_market_is_refused() {
    let mut env = ledger();
    place(&mut env, ALICE, YES, 2_000_000).unwrap();
    assert_eq!(refused(&mut env, YES, 2_000_000, 0), Error::AlreadyBet);
    assert_eq!(refused(&mut env, NO, 1_000_000, 0), Error::AlreadyBet);
    place(&mut env, BOB, YES, 2_000_000).unwrap();
    BetManager::place_bet(&mut env, ALICE, SECOND, YES, 2_000_000, 0).unwrap();
}

#[test]
fn ledger_takes_no_more_bets_than_allowed() {
    let mut env = ledger();
    env.bets_left = Some(1);
    place(&mut env, ALICE, YES, 2_000_000).unwrap();
    assert_eq!(env.bets_left, Some(0));
    assert_eq!(refused(&mut env, YES, 2_000_000, 0), Error::RateLimitExceeded);
    assert_eq!(place(&mut env, BOB, YES, 2_000_000), Err(Error::RateLimitExceeded));
}

#[test]
fn running_section_and_paused_betting_refuse_bets() {
    let mut env = ledger();
    env.context.locks.place_bet = true;
    env.context.betting_paused = true;
    assert_eq!(refused(&mut env, YES, 2_000_000, 0), Error::InvalidState);
    env.context.locks.place_bet = false;
    assert_eq!(refused(&mut env, YES, 2_000_000, 0), Error::CircuitBreakerOpen);
    env.context.betting_paused = false;
    env.context.locks.lock_funds = true;
    assert_eq!(refused(&mut env, YES, 2_000_000, 0), Error::InvalidState);
    env.context.locks.lock_funds = false;
    env.context.token = None;
    assert_eq!(refused(&mut env, YES, 2_000_000, 0), Error::InvalidInput);
}

#[test]
fn fee_bound_is_checked_when_positive() {
    let mut env = ledger();
    assert_eq!(DEFAULT_PLATFORM_FEE_PERCENTAGE, 200);
    assert_eq!(BetManager::get_live_fee_percentage(&env), Ok(200));
    assert_eq!(refused(&mut env, YES, 2_000_000, 199), Error::FeeExceedsMax);
    env.context.platform_fee = Some(300);
    assert_eq!(BetManager::get_live_fee_percentage(&env), Ok(300));
    env.context.fee_config = Some(FeeSettings { fees_enabled: true, platform_fee_percentage: 250 });
    assert_eq!(BetManager::get_live_fee_percentage(&env), Ok(250));
    env.context.fee_config = Some(FeeSettings { fees_enabled: false, platform_fee_percentage: 250 });
    assert_eq!(BetManager::get_live_fee_percentage(&env), Ok(0));
    env.context.config = Some(FeeSettings { fees_enabled: true, platform_fee_percentage: 400 });
    assert_eq!(BetManager::get_live_fee_percentage(&env), Ok(400));
    assert_eq!(refused(&mut env, YES, 2_000_000, 399), Error::FeeExceedsMax);
    BetManager::place_bet(&mut env, ALICE, MARKET, YES, 2_000_000, 400).unwrap();
    BetManager::place_bet(&mut env, BOB, MARKET, YES, 2_000_000, 0).unwrap();
    env.context.config = Some(FeeSettings { fees_enabled: false, platform_fee_percentage: 400 });
    BetManager::place_bet(&mut env, CAROL, MARKET, YES, 2_000_000, 1).unwrap();
}

#[test]
fn closed_markets_refuse_bets() {
    let mut env = ledger();
    let missing = Symbol { id: 999 };
    assert_eq!(
        BetManager::place_bet(&mut env, ALICE, missing, YES, 2_000_000, 0),
        Err(Error::MarketNotFound)
    );
    env.context.timestamp = 1_000;
    assert_eq!(refused(&mut env, YES, 2_000_000, 0), Error::MarketClosed);
    env.context.timestamp = 999;
    for state in [
        MarketState::Ended,
        MarketState::Disputed,
        MarketState::Resolved,
        MarketState::Closed,
        MarketState::Cancelled,
    ] {
        let mut market = open_market(&env);
        market.state = state;
        env.put_market(MARKET, market);
        assert_eq!(refused(&mut env, YES, 2_000_000, 0), Error::MarketClosed);
    }
    let mut market = open_market(&env);
    market.winning_outcomes = Some(list(&env.host, &[YES]));
    env.put_market(MARKET, market);
    assert_eq!(refused(&mut env, YES, 2_000_000, 0), Error::MarketResolved);
}

#[test]
fn bets_outside_outcomes_limits_and_caps_are_refused() {
    let mut env = ledger();
    assert_eq!(refused(&mut env, Outcome { id: 299 }, 2_000_000, 0), Error::InvalidOutcome);
    assert_eq!(refused(&mut env, YES, MIN_BET_AMOUNT - 1, 0), Error::InsufficientStake);
    assert_eq!(refused(&mut env, YES, MAX_BET_AMOUNT + 1, 0), Error::InvalidInput);
    set_market_max_bet_cap(&mut env, &MARKET, 3_000_000).unwrap();
    assert_eq!(refused(&mut env, YES, 3_000_001, 0), Error::BetExceedsCap);
    env.max_bet_cap = Some(2_500_000);
    assert_eq!(refused(&mut env, YES, 2_500_001, 0), Error::MaxBetCapExceeded);
    place(&mut env, ALICE, YES, 2_500_000).unwrap();
}

#[test]
fn sums_that_do_not_fit_are_refused() {
    let mut env = ledger();
    env.user_stakes.set(UserStakeKey { user: ALICE, market_id: MARKET }, i128::MAX);
    assert_eq!(refused(&mut env, YES, 2_000_000, 0), Error::Overflow);
    assert_eq!(
        BetValidator::validate_user_stake_under_cap(&env, &MARKET, &ALICE, 1),
        Err(Error::Overflow)
    );

    let mut env = ledger();
    let full = BetStats {
        total_bets: u32::MAX,
        total_amount_locked: 0,
        unique_bettors: 0,
        outcome_totals: IdMap::new(&env.host),
    };
    BetStorage::store_market_bet_stats(&mut env, &MARKET, &full).unwrap();
    assert_eq!(refused(&mut env, YES, 2_000_000, 0), Error::Overflow);
    assert_eq!(
        BetManager::update_market_bet_stats(&mut env, &MARKET, &YES, 1),
        Err(Error::Overflow)
    );

    let mut env = ledger();
    let mut market = open_market(&env);
    market.total_staked = i128::MAX;
    env.put_market(MARKET, market);
    assert_eq!(refused(&mut env, YES, 2_000_000, 0), Error::Overflow);

    let mut env = ledger();
    env.balances.set(CONTRACT, i128::MAX);
    assert_eq!(refused(&mut env, YES, 2_000_000, 0), Error::Overflow);
}

#[test]
fn bet_above_the_balance_is_refused() {
    let mut env = ledger();
    assert_eq!(refused(&mut env, YES, FUNDS + 1, 0), Error::InsufficientBalance);
    place(&mut env, ALICE, YES, FUNDS).unwrap();
    assert_eq!(env.balance(&ALICE), 0);
}

#[test]
fn cancelling_undoes_a_bet() {
    let mut env = ledger();
    place(&mut env, BOB, YES, 3_000_000).unwrap();
    place(&mut env, ALICE, YES, 2_000_000).unwrap();
    env.effects = Vec::new();
    BetManager::cancel_bet(&mut env, ALICE, MARKET).unwrap();
    assert_eq!(env.balance(&ALICE), FUNDS);
    assert_eq!(env.balance(&CONTRACT), 3_000_000);
    let stats = BetManager::get_market_bet_stats(&env, &MARKET);
    assert_eq!(stats.total_bets, 1);
    assert_eq!(stats.unique_bettors, 1);
    assert_eq!(stats.total_amount_locked, 3_000_000);
    assert_eq!(stats.outcome_totals.get(YES.id), Some(3_000_000));
    let market = env.market(&MARKET).unwrap();
    assert_eq!(market.total_staked, 3_000_000);
    assert_eq!(market.votes.get(ALICE.id), None);
    assert_eq!(market.stakes.get(ALICE.id), None);
    assert_eq!(market.stakes.get(BOB.id), Some(3_000_000));
    assert_eq!(
        BetManager::get_bet(&env, &MARKET, &ALICE).unwrap().status,
        BetStatus::Cancelled
    );
    assert_eq!(BetStorage::get_all_bets_for_market(&env, &MARKET).len(), 2);
    assert_eq!(
        env.effects,
        vec![
            Effect::RequireAuth { address: ALICE },
            Effect::Transfer { from: CONTRACT, to: ALICE, amount: 2_000_000 },
            Effect::Publish {
                event: Event::BetStatusUpdated {
                    market_id: MARKET,
                    user: ALICE,
                    old_status: BetStatus::Active,
                    new_status: BetStatus::Cancelled,
                    payout: Some(2_000_000),
                },
            },
        ]
    );
    assert_eq!(BetManager::cancel_bet(&mut env, ALICE, MARKET), Err(Error::InvalidState));
    place(&mut env, ALICE, NO, 4_000_000).unwrap();
    assert_eq!(BetStorage::get_all_bets_for_market(&env, &MARKET).len(), 2);
    assert_eq!(BetValidator::get_user_stake(&env, &MARKET, &ALICE), 6_000_000);
}

#[test]
fn cancelling_the_last_bet_on_an_outcome_drops_the_outcome() {
    let mut env = ledger();
    place(&mut env, ALICE, YES, 2_000_000).unwrap();
    BetManager::cancel_bet(&mut env, ALICE, MARKET).unwrap();
    let stats = BetManager::get_market_bet_stats(&env, &MARKET);
    assert_eq!(stats.total_bets, 0);
    assert_eq!(stats.total_amount_locked, 0);
    assert_eq!(stats.outcome_totals.get(YES.id), None);
    BetManager::update_market_bet_stats_on_cancel(&mut env, &MARKET, &YES, 5).unwrap();
    let stats = BetManager::get_market_bet_stats(&env, &MARKET);
    assert_eq!(stats.total_bets, 0);
    assert_eq!(stats.total_amount_locked, -5);
    assert_eq!(stats.outcome_totals.get(YES.id), None);
}

#[test]
fn cancelling_is_refused_without_cause() {
    let mut env = ledger();
    assert_eq!(BetManager::cancel_bet(&mut env, ALICE, MARKET), Err(Error::NothingToClaim));
    place(&mut env, ALICE, YES, 2_000_000).unwrap();
    env.context.cancelling_paused = true;
    assert_eq!(BetManager::cancel_bet(&mut env, ALICE, MARKET), Err(Error::CircuitBreakerOpen));
    env.context.cancelling_paused = false;
    env.context.locks.unlock_funds = true;
    assert_eq!(BetManager::cancel_bet(&mut env, ALICE, MARKET), Err(Error::InvalidState));
    env.context.locks.unlock_funds = false;
    env.balances.set(CONTRACT, 1_999_999);
    assert_eq!(BetManager::cancel_bet(&mut env, ALICE, MARKET), Err(Error::InsufficientBalance));
    env.balances.set(CONTRACT, 2_000_000);
    env.context.timestamp = 1_000;
    assert_eq!(BetManager::cancel_bet(&mut env, ALICE, MARKET), Err(Error::MarketClosed));
    let orphan = Bet::new(ALICE, Symbol { id: 999 }, YES, 1, 0);
    BetStorage::store_bet(&mut env, &orphan).unwrap();
    assert_eq!(
        BetManager::cancel_bet(&mut env, ALICE, Symbol { id: 999 }),
        Err(Error::MarketNotFound)
    );
    env.context.timestamp = 999;
    BetManager::cancel_bet(&mut env, ALICE, MARKET).unwrap();
}

#[test]
fn batch_places_all_of_its_bets() {
    let mut env = ledger();
    env.bets_left = Some(5);
    let bets = vec![(MARKET, YES, 2_000_000), (SECOND, NO, 3_000_000)];
    let placed = BetManager::place_bets(&mut env, ALICE, bets, 200, TOKEN).unwrap();
    assert_eq!(placed.len(), 2);
    assert_eq!(placed[0], Bet::new(ALICE, MARKET, YES, 2_000_000, 500));
    assert_eq!(placed[1], Bet::new(ALICE, SECOND, NO, 3_000_000, 500));
    assert_eq!(BetManager::get_bet(&env, &SECOND, &ALICE), Some(placed[1]));
    assert_eq!(env.balance(&ALICE), FUNDS - 5_000_000);
    assert_eq!(env.balance(&CONTRACT), 5_000_000);
    assert_eq!(env.bets_left, Some(3));
    assert_eq!(env.market(&SECOND).unwrap().total_staked, 3_000_000);
    assert_eq!(
        BetManager::get_market_bet_stats(&env, &SECOND).outcome_totals.get(NO.id),
        Some(3_000_000)
    );
    assert_eq!(BetValidator::get_user_stake(&env, &MARKET, &ALICE), 2_000_000);
    assert_eq!(BetValidator::get_user_stake(&env, &SECOND, &ALICE), 3_000_000);
    let first = UserStakeKey { user: ALICE, market_id: MARKET };
    let second = UserStakeKey { user: ALICE, market_id: SECOND };
    let batch = BatchKey { user: ALICE, token: TOKEN };
    assert_eq!(PLACE_BETS_IDEM_TTL_LEDGERS, 120_960);
    assert_eq!(
        env.effects,
        vec![
            Effect::RequireAuth { address: ALICE },
            Effect::Transfer { from: ALICE, to: CONTRACT, amount: 5_000_000 },
            Effect::ExtendTtl { entry: TtlEntry::UserStake { stake: first }, ledgers: TTL },
            Effect::Publish {
                event: Event::BetPlaced {
                    market_id: MARKET,
                    user: ALICE,
                    outcome: YES,
                    amount: 2_000_000,
                },
            },
            Effect::ExtendTtl { entry: TtlEntry::UserStake { stake: second }, ledgers: TTL },
            Effect::Publish {
                event: Event::BetPlaced {
                    market_id: SECOND,
                    user: ALICE,
                    outcome: NO,
                    amount: 3_000_000,
                },
            },
            Effect::ExtendTtl { entry: TtlEntry::Batch { batch }, ledgers: 120_960 },
        ]
    );
}

#[test]
fn batch_cannot_be_replayed() {
    let mut env = ledger();
    BetManager::place_bets(&mut env, ALICE, vec![(MARKET, YES, 2_000_000)], 200, TOKEN).unwrap();
    let effects = env.effects.len();
    assert_eq!(
        BetManager::place_bets(&mut env, ALICE, vec![(SECOND, YES, 2_000_000)], 200, TOKEN),
        Err(Error::IdempotentBatchAlreadyApplied)
    );
    assert_eq!(env.effects.len(), effects);
    BetManager::place_bets(&mut env, BOB, vec![(MARKET, YES, 2_000_000)], 200, TOKEN).unwrap();
    let other = BatchToken { high: 7, low: 10 };
    BetManager::place_bets(&mut env, ALICE, vec![(SECOND, YES, 2_000_000)], 200, other).unwrap();
}

fn batch_refused(env: &mut Ledger, bets: Vec<(Symbol, Outcome, i128)>, max_fee_bps: i128) -> Error {
    let effects = env.effects.len();
    let r = BetManager::place_bets(env, ALICE, bets, max_fee_bps, TOKEN);
    assert_eq!(env.effects.len(), effects);
    assert_eq!(env.balance(&ALICE), FUNDS);
    assert!(!BetManager::has_user_bet(env, &MARKET, &ALICE));
    assert!(env.batches.get(&BatchKey { user: ALICE, token: TOKEN }).is_none());
    r.unwrap_err()
}

#[test]
fn batch_is_placed_whole_or_not_at_all() {
    let mut env = ledger();
    let good = (MARKET, YES, 2_000_000);
    assert_eq!(batch_refused(&mut env, vec![], 200), Error::BatchEmpty);
    assert_eq!(
        batch_refused(&mut env, vec![good; MAX_BATCH_SIZE as usize + 1], 200),
        Error::BatchSizeExceeded
    );
    assert_eq!(
        batch_refused(&mut env, vec![good; MAX_BATCH_SIZE as usize], 200),
        Error::InvalidInput
    );
    assert_eq!(batch_refused(&mut env, vec![good], 199), Error::FeeExceedsMax);
    assert_eq!(batch_refused(&mut env, vec![good, good], 200), Error::InvalidInput);
    assert_eq!(
        batch_refused(&mut env, vec![good, (SECOND, YES, 999_999)], 200),
        Error::InsufficientStake
    );
    assert_eq!(
        batch_refused(&mut env, vec![good, (Symbol { id: 999 }, YES, 2_000_000)], 200),
        Error::MarketNotFound
    );
    assert_eq!(
        batch_refused(&mut env, vec![good, (SECOND, YES, FUNDS)], 200),
        Error::InsufficientBalance
    );
    env.bets_left = Some(1);
    assert_eq!(
        batch_refused(&mut env, vec![good, (SECOND, YES, 2_000_000)], 200),
        Error::RateLimitExceeded
    );
    env.bets_left = None;
    env.context.betting_paused = true;
    assert_eq!(batch_refused(&mut env, vec![good], 200), Error::CircuitBreakerOpen);
    env.context.locks.place_bets = true;
    assert_eq!(batch_refused(&mut env, vec![good], 200), Error::InvalidState);
}

#[test]
fn batch_without_a_bound_accepts_any_fee() {
    let mut env = ledger();
    env.context.config = Some(FeeSettings { fees_enabled: true, platform_fee_percentage: 200 });
    let bets = vec![(MARKET, YES, 2_000_000)];
    assert_eq!(BetManager::place_bets(&mut env, ALICE, bets, 0, TOKEN).unwrap().len(), 1);
    let mut env = ledger();
    let bets = vec![(MARKET, YES, 2_000_000)];
    assert_eq!(batch_refused(&mut env, bets, -1), Error::FeeExceedsMax);
}

#[test]
fn batch_bars_another_bet_on_its_markets() {
    let mut env = ledger();
    BetManager::place_bets(&mut env, ALICE, vec![(MARKET, YES, 2_000_000)], 200, TOKEN).unwrap();
    assert_eq!(refused(&mut env, YES, 2_000_000, 0), Error::AlreadyBet);
    let other = BatchToken { high: 7, low: 10 };
    let bets = vec![(SECOND, YES, 2_000_000), (MARKET, NO, 2_000_000)];
    assert_eq!(
        BetManager::place_bets(&mut env, ALICE, bets, 200, other),
        Err(Error::AlreadyBet)
    );
    place(&mut env, BOB, YES, 2_000_000).unwrap();
    let bets = vec![(SECOND, YES, 2_000_000), (MARKET, NO, 2_000_000)];
    assert_eq!(
        BetManager::place_bets(&mut env, BOB, bets, 200, TOKEN),
        Err(Error::AlreadyBet)
    );
}

#[test]
fn batch_is_added_to_the_stakes_that_the_cap_goes_by() {
    let mut env = ledger();
    env.max_bet_cap = Some(3_000_000);
    let bets = vec![(MARKET, YES, 2_000_000), (SECOND, YES, 4_000_000)];
    BetManager::place_bets(&mut env, ALICE, bets, 200, TOKEN).unwrap();
    assert_eq!(BetValidator::get_user_stake(&env, &SECOND, &ALICE), 4_000_000);
    assert_eq!(BetValidator::sum_user_stake(&env, &SECOND, &ALICE, 1), Ok(4_000_001));
    BetManager::cancel_bet(&mut env, ALICE, MARKET).unwrap();
    assert_eq!(refused(&mut env, YES, 1_000_001, 0), Error::MaxBetCapExceeded);
    place(&mut env, ALICE, YES, 1_000_000).unwrap();
    let mut env = ledger();
    env.user_stakes.set(UserStakeKey { user: ALICE, market_id: MARKET }, i128::MAX);
    assert_eq!(batch_refused(&mut env, vec![(MARKET, YES, 2_000_000)], 200), Error::Overflow);
}

#[test]
fn batch_sums_that_do_not_fit_are_refused() {
    let mut env = ledger();
    let mut market = open_market(&env);
    market.total_staked = i128::MAX;
    env.put_market(SECOND, market);
    let bets = vec![(MARKET, YES, 2_000_000), (SECOND, YES, 2_000_000)];
    assert_eq!(batch_refused(&mut env, bets, 200), Error::InvalidInput);

    let mut env = ledger();
    let full = BetStats {
        total_bets: 0,
        total_amount_locked: i128::MAX,
        unique_bettors: 0,
        outcome_totals: IdMap::new(&env.host),
    };
    BetStorage::store_market_bet_stats(&mut env, &SECOND, &full).unwrap();
    let bets = vec![(MARKET, YES, 2_000_000), (SECOND, YES, 2_000_000)];
    assert_eq!(batch_refused(&mut env, bets, 200), Error::Overflow);
}

fn status(env: &Ledger, user: Address) -> BetStatus {
    BetManager::get_bet(env, &MARKET, &user).unwrap().status
}

#[test]
fn resolution_settles_every_bet_once() {
    let mut env = ledger();
    place(&mut env, ALICE, YES, 2_000_000).unwrap();
    place(&mut env, BOB, NO, 2_000_000).unwrap();
    place(&mut env, CAROL, DRAW, 2_000_000).unwrap();
    BetManager::place_bet(&mut env, ALICE, SECOND, NO, 2_000_000, 0).unwrap();
    env.effects = Vec::new();
    let winners = list(&env.host, &[YES, DRAW]);
    env.context.resolving_paused = true;
    assert_eq!(
        BetManager::resolve_market_bets(&mut env, &MARKET, &winners),
        Err(Error::CircuitBreakerOpen)
    );
    assert_eq!(status(&env, ALICE), BetStatus::Active);
    assert_eq!(env.effects.len(), 0);
    env.context.resolving_paused = false;
    BetManager::resolve_market_bets(&mut env, &MARKET, &winners).unwrap();
    assert_eq!(status(&env, ALICE), BetStatus::Won);
    assert_eq!(status(&env, BOB), BetStatus::Lost);
    assert_eq!(status(&env, CAROL), BetStatus::Won);
    assert_eq!(
        BetManager::get_bet(&env, &SECOND, &ALICE).unwrap().status,
        BetStatus::Active
    );
    assert_eq!(env.effects.len(), 3);
    assert_eq!(
        env.effects[1],
        Effect::Publish {
            event: Event::BetStatusUpdated {
                market_id: MARKET,
                user: BOB,
                old_status: BetStatus::Active,
                new_status: BetStatus::Lost,
                payout: None,
            },
        }
    );
    BetManager::resolve_market_bets(&mut env, &MARKET, &winners).unwrap();
    assert_eq!(env.effects.len(), 3);
    assert_eq!(env.balance(&CONTRACT), 8_000_000);
}

#[test]
fn refund_pays_back_every_active_bet_once() {
    let mut env = ledger();
    place(&mut env, ALICE, YES, 2_000_000).unwrap();
    place(&mut env, BOB, NO, 3_000_000).unwrap();
    place(&mut env, CAROL, NO, 4_000_000).unwrap();
    BetManager::cancel_bet(&mut env, CAROL, MARKET).unwrap();
    env.effects = Vec::new();
    BetManager::refund_market_bets(&mut env, &MARKET).unwrap();
    assert_eq!(status(&env, ALICE), BetStatus::Refunded);
    assert_eq!(status(&env, BOB), BetStatus::Refunded);
    assert_eq!(status(&env, CAROL), BetStatus::Cancelled);
    assert_eq!(env.balance(&ALICE), FUNDS);
    assert_eq!(env.balance(&BOB), FUNDS);
    assert_eq!(env.balance(&CONTRACT), 0);
    let market = env.market(&MARKET).unwrap();
    assert_eq!(market.total_staked, 0);
    assert_eq!(market.stakes.get(ALICE.id), None);
    assert_eq!(
        env.effects,
        vec![
            Effect::Transfer { from: CONTRACT, to: ALICE, amount: 2_000_000 },
            Effect::Publish {
                event: Event::BetStatusUpdated {
                    market_id: MARKET,
                    user: ALICE,
                    old_status: BetStatus::Active,
                    new_status: BetStatus::Refunded,
                    payout: Some(2_000_000),
                },
            },
            Effect::Transfer { from: CONTRACT, to: BOB, amount: 3_000_000 },
            Effect::Publish {
                event: Event::BetStatusUpdated {
                    market_id: MARKET,
                    user: BOB,
                    old_status: BetStatus::Active,
                    new_status: BetStatus::Refunded,
                    payout: Some(3_000_000),
                },
            },
        ]
    );
    BetManager::refund_market_bets(&mut env, &MARKET).unwrap();
    assert_eq!(env.effects.len(), 4);
    assert_eq!(env.balance(&ALICE), FUNDS);
    assert_eq!(BetManager::cancel_bet(&mut env, ALICE, MARKET), Err(Error::InvalidState));
}

#[test]
fn refund_that_cannot_be_paid_leaves_the_ledger_alone() {
    let mut env = ledger();
    assert_eq!(
        BetManager::refund_market_bets(&mut env, &Symbol { id: 999 }),
        Err(Error::MarketNotFound)
    );
    place(&mut env, ALICE, YES, 2_000_000).unwrap();
    place(&mut env, BOB, NO, 3_000_000).unwrap();
    let effects = env.effects.len();
    env.context.refunding_paused = true;
    assert_eq!(
        BetManager::refund_market_bets(&mut env, &MARKET),
        Err(Error::CircuitBreakerOpen)
    );
    assert_eq!(status(&env, ALICE), BetStatus::Active);
    assert_eq!(env.balance(&CONTRACT), 5_000_000);
    assert_eq!(env.effects.len(), effects);
    env.context.refunding_paused = false;
    env.balances.set(CONTRACT, 4_999_999);
    assert_eq!(
        BetManager::refund_market_bets(&mut env, &MARKET),
        Err(Error::InsufficientBalance)
    );
    assert_eq!(status(&env, ALICE), BetStatus::Active);
    assert_eq!(env.balance(&ALICE), FUNDS - 2_000_000);
    assert_eq!(env.balance(&CONTRACT), 4_999_999);
    assert_eq!(env.effects.len(), effects);
}

fn resolved(env: &mut Ledger, winners: &[Outcome], pool: i128) {
    let mut market = env.market(&MARKET).unwrap().copy();
    market.winning_outcomes = Some(list(&env.host, winners));
    env.put_market(MARKET, market);
    let won = list(&env.host, winners);
    BetManager::resolve_market_bets(env, &MARKET, &won).unwrap();
    env.resolutions.set(
        MARKET,
        ResolutionSummary { num_winning_outcomes: winners.len() as u32, total_pool: pool },
    );
}

fn payout(env: &Ledger, user: Address) -> Result<i128, Error> {
    BetManager::calculate_bet_payout(env, &MARKET, &user, 200)
}

#[test]
fn payout_shares_the_pool_by_stake() {
    let mut env = ledger();
    place(&mut env, ALICE, YES, 10_000_000).unwrap();
    place(&mut env, BOB, YES, 40_000_000).unwrap();
    place(&mut env, CAROL, NO, 50_000_000).unwrap();
    resolved(&mut env, &[YES], 100_000_000);
    // 98,000,000 after a fee of two percent, split one to four.
    assert_eq!(payout(&env, ALICE), Ok(19_600_000));
    assert_eq!(payout(&env, BOB), Ok(78_400_000));
    assert_eq!(payout(&env, CAROL), Ok(0));
    assert_eq!(BetManager::calculate_bet_payout(&env, &MARKET, &ALICE, 0), Ok(20_000_000));
}

#[test]
fn payout_on_a_tie_goes_by_all_winning_bets() {
    let mut env = ledger();
    place(&mut env, ALICE, YES, 10_000_000).unwrap();
    place(&mut env, BOB, NO, 30_000_000).unwrap();
    place(&mut env, CAROL, DRAW, 20_000_000).unwrap();
    resolved(&mut env, &[YES, NO], 60_000_000);
    // A fee of 1,200,000 leaves 58,800,000, split one to three.
    assert_eq!(payout(&env, ALICE), Ok(14_700_000));
    assert_eq!(payout(&env, BOB), Ok(44_100_000));
    assert_eq!(payout(&env, CAROL), Ok(0));
    // An outcome that is named twice is counted once.
    resolved(&mut env, &[YES, NO, YES], 101);
    // A fee of 2 leaves 99.
    assert_eq!(payout(&env, ALICE), Ok(24));
    assert_eq!(payout(&env, BOB), Ok(74));
}

#[test]
fn payout_on_a_tie_gives_each_bet_its_part_of_the_pool() {
    let mut env = ledger();
    let mut stats = BetStats::empty(&env.host);
    stats.outcome_totals = stats.outcome_totals.with(YES.id, 100).unwrap();
    stats.outcome_totals = stats.outcome_totals.with(NO.id, 300).unwrap();
    BetStorage::store_market_bet_stats(&mut env, &MARKET, &stats).unwrap();
    BetStorage::store_bet(&mut env, &Bet::new(ALICE, MARKET, YES, 100, 0)).unwrap();
    BetStorage::store_bet(&mut env, &Bet::new(BOB, MARKET, NO, 300, 0)).unwrap();
    resolved(&mut env, &[YES, NO], 400);
    assert_eq!(BetManager::calculate_bet_payout(&env, &MARKET, &ALICE, 0), Ok(100));
    assert_eq!(BetManager::calculate_bet_payout(&env, &MARKET, &BOB, 0), Ok(300));
}

#[test]
fn payout_is_refused_without_a_result() {
    let mut env = ledger();
    assert_eq!(payout(&env, ALICE), Err(Error::NothingToClaim));
    place(&mut env, ALICE, YES, 10_000_000).unwrap();
    assert_eq!(payout(&env, ALICE), Ok(0));
    let won = list(&env.host, &[YES]);
    BetManager::resolve_market_bets(&mut env, &MARKET, &won).unwrap();
    assert_eq!(payout(&env, ALICE), Err(Error::MarketNotResolved));
    let mut market = env.market(&MARKET).unwrap().copy();
    market.winning_outcomes = Some(won);
    env.put_market(MARKET, market);
    assert_eq!(payout(&env, ALICE), Err(Error::MarketNotResolved));
    env.resolutions.set(MARKET, ResolutionSummary { num_winning_outcomes: 0, total_pool: 100 });
    assert_eq!(payout(&env, ALICE), Ok(0));
    env.resolutions.set(
        MARKET,
        ResolutionSummary { num_winning_outcomes: 1, total_pool: i128::MAX },
    );
    assert_eq!(payout(&env, ALICE), Err(Error::InvalidInput));
    env.resolutions.set(MARKET, ResolutionSummary { num_winning_outcomes: 2, total_pool: 100 });
    let mut market = env.market(&MARKET).unwrap().copy();
    market.winning_outcomes = Some(list(&env.host, &[YES, NO]));
    env.put_market(MARKET, market);
    let mut full = BetStats::empty(&env.host);
    full.outcome_totals = full.outcome_totals.with(YES.id, i128::MAX).unwrap();
    full.outcome_totals = full.outcome_totals.with(NO.id, 1).unwrap();
    BetStorage::store_market_bet_stats(&mut env, &MARKET, &full).unwrap();
    assert_eq!(payout(&env, ALICE), Err(Error::InvalidInput));
    full.outcome_totals = full.outcome_totals.with(NO.id, -i128::MAX).unwrap();
    BetStorage::store_market_bet_stats(&mut env, &MARKET, &full).unwrap();
    assert_eq!(payout(&env, ALICE), Ok(0));
    let empty = BetStats::empty(&env.host);
    BetStorage::store_market_bet_stats(&mut env, &MARKET, &empty).unwrap();
    assert_eq!(payout(&env, ALICE), Ok(0));
    let mut orphan = Bet::new(ALICE, Symbol { id: 999 }, YES, 1, 0);
    orphan.mark_as_won();
    BetStorage::store_bet(&mut env, &orphan).unwrap();
    assert_eq!(
        BetManager::calculate_bet_payout(&env, &Symbol { id: 999 }, &ALICE, 200),
        Err(Error::MarketNotFound)
    );
}

#[test]
fn analytics_round_toward_zero_and_give_zero_where_a_step_does_not_fit() {
    let mut env = ledger();
    let mut stats = BetStats::empty(&env.host);
    stats.total_amount_locked = 3;
    stats.outcome_totals = stats.outcome_totals.with(YES.id, 2).unwrap();
    BetStorage::store_market_bet_stats(&mut env, &MARKET, &stats).unwrap();
    assert_eq!(BetAnalytics::calculate_implied_probability(&env, &MARKET, &YES), 66);
    assert_eq!(BetAnalytics::calculate_implied_probability(&env, &MARKET, &NO), 0);
    stats.outcome_totals = stats.outcome_totals.with(NO.id, 1).unwrap();
    BetStorage::store_market_bet_stats(&mut env, &MARKET, &stats).unwrap();
    // 66 and 33 percent, which add up to no more than 100.
    assert_eq!(BetAnalytics::calculate_implied_probability(&env, &MARKET, &NO), 33);
    assert_eq!(BetAnalytics::calculate_payout_multiplier(&env, &MARKET, &YES), 150);
    stats.total_amount_locked = i128::MAX;
    stats.outcome_totals = stats.outcome_totals.with(YES.id, i128::MAX).unwrap();
    BetStorage::store_market_bet_stats(&mut env, &MARKET, &stats).unwrap();
    assert_eq!(BetAnalytics::calculate_implied_probability(&env, &MARKET, &YES), 0);
    assert_eq!(BetAnalytics::calculate_payout_multiplier(&env, &MARKET, &YES), 0);
}

#[test]
fn stake_cap_is_set_by_the_admin_alone() {
    let mut env = ledger();
    let admin = Address { id: 3 };
    assert_eq!(
        BetValidator::set_max_bet_cap(&mut env, &ALICE, 5_000_000),
        Err(Error::Unauthorized)
    );
    assert_eq!(BetValidator::set_max_bet_cap(&mut env, &admin, 0), Err(Error::InvalidCap));
    assert_eq!(BetValidator::get_max_bet_cap(&env), None);
    BetValidator::set_max_bet_cap(&mut env, &admin, 5_000_000).unwrap();
    assert_eq!(BetValidator::get_max_bet_cap(&env), Some(5_000_000));
    assert_eq!(
        env.effects,
        vec![
            Effect::RequireAuth { address: admin },
            Effect::ExtendTtl { entry: TtlEntry::MaxBetCap, ledgers: TTL },
            Effect::Publish { event: Event::MaxBetCapSet { cap: 5_000_000 } },
        ]
    );
    assert!(BetValidator::validate_user_stake_under_cap(&env, &MARKET, &ALICE, 5_000_000).is_ok());
    assert_eq!(
        BetValidator::validate_user_stake_under_cap(&env, &MARKET, &ALICE, 5_000_001),
        Err(Error::MaxBetCapExceeded)
    );
    env.context.admin = None;
    assert_eq!(
        BetValidator::set_max_bet_cap(&mut env, &admin, 5_000_000),
        Err(Error::AdminNotSet)
    );
}

#[test]
fn user_stakes_add_up() {
    let mut env = ledger();
    BetValidator::update_user_stake(&mut env, &MARKET, &ALICE, 3).unwrap();
    BetValidator::update_user_stake(&mut env, &MARKET, &ALICE, 4).unwrap();
    assert_eq!(BetValidator::get_user_stake(&env, &MARKET, &ALICE), 7);
    assert_eq!(BetValidator::get_user_stake(&env, &SECOND, &ALICE), 0);
    assert_eq!(
        BetValidator::update_user_stake(&mut env, &MARKET, &ALICE, i128::MAX),
        Err(Error::Overflow)
    );
    assert_eq!(BetValidator::get_user_stake(&env, &MARKET, &ALICE), 7);
    BetValidator::store_user_stake(&mut env, &MARKET, &ALICE, 1);
    assert_eq!(BetValidator::get_user_stake(&env, &MARKET, &ALICE), 1);
}

#[test]
fn transfers_move_what_is_there() {
    let mut env = ledger();
    assert_eq!(BetUtils::get_contract_balance(&env), Ok(0));
    assert_eq!(BetUtils::has_sufficient_balance(&env, &ALICE, FUNDS), Ok(true));
    assert_eq!(BetUtils::has_sufficient_balance(&env, &ALICE, FUNDS + 1), Ok(false));
    BetUtils::lock_funds(&mut env, &ALICE, 7).unwrap();
    assert_eq!(BetUtils::get_contract_balance(&env), Ok(7));
    assert_eq!(env.balance(&ALICE), FUNDS - 7);
    assert_eq!(BetUtils::unlock_funds(&mut env, &BOB, 8), Err(Error::InsufficientBalance));
    assert_eq!(BetUtils::unlock_funds(&mut env, &BOB, -1), Err(Error::InvalidInput));
    BetUtils::unlock_funds(&mut env, &BOB, 7).unwrap();
    assert_eq!(env.balance(&BOB), FUNDS + 7);
    assert_eq!(env.balance(&CONTRACT), 0);
    BetUtils::unlock_funds(&mut env, &CONTRACT, 0).unwrap();
    assert_eq!(env.balance(&CONTRACT), 0);
    assert_eq!(BetUtils::check_lock(&env, &ALICE, FUNDS), Err(Error::InsufficientBalance));
    assert_eq!(BetUtils::check_unlock(&env, &ALICE, 0), Ok(()));
    env.context.token = None;
    assert_eq!(BetUtils::get_contract_balance(&env), Err(Error::InvalidInput));
    assert_eq!(BetUtils::has_sufficient_balance(&env, &ALICE, 0), Err(Error::InvalidInput));
    assert_eq!(BetUtils::lock_funds(&mut env, &ALICE, 1), Err(Error::InvalidInput));
}

#[test]
fn limits_of_a_market_go_before_those_for_all() {
    let mut env = ledger();
    let own = BetLimits { min_bet: 2_000_000, max_bet: 3_000_000 };
    let all = BetLimits { min_bet: 4_000_000, max_bet: 5_000_000 };
    set_event_bet_limits(&mut env, &MARKET, &own).unwrap();
    set_global_bet_limits(&mut env, &all).unwrap();
    assert_eq!(get_effective_bet_limits(&env, &MARKET), own);
    assert_eq!(get_effective_bet_limits(&env, &SECOND), all);
    let bad = BetLimits { min_bet: 0, max_bet: 5 };
    assert_eq!(set_event_bet_limits(&mut env, &MARKET, &bad), Err(Error::InsufficientStake));
    assert_eq!(get_effective_bet_limits(&env, &MARKET), own);
    assert_eq!(validate_limits_bounds(&own), Ok(()));
    assert_eq!(validate_limits_bounds(&bad), Err(Error::InsufficientStake));
}

#[test]
fn storing_a_bet_twice_lists_its_user_once() {
    let mut env = ledger();
    let bet = Bet::new(ALICE, MARKET, YES, 5, 1);
    BetStorage::store_bet(&mut env, &bet).unwrap();
    BetStorage::store_bet(&mut env, &bet).unwrap();
    BetStorage::store_bet(&mut env, &Bet::new(BOB, MARKET, NO, 6, 2)).unwrap();
    let bettors = BetStorage::get_all_bets_for_market(&env, &MARKET);
    assert_eq!(bettors.len(), 2);
    assert_eq!(bettors.get(0), Some(ALICE.id));
    assert_eq!(bettors.get(1), Some(BOB.id));
    assert_eq!(bettors.get(2), None);
    assert_eq!(BetStorage::get_bet(&env, &MARKET, &ALICE), Some(bet));
}

#[test]
fn host_maps_and_lists_behave_as_values() {
    let env = host();
    let empty = IdMap::new(&env);
    let one = empty.with(4, -7).unwrap();
    let two = one.with(5, 8).unwrap().with(4, 9).unwrap();
    assert_eq!(empty.get(4), None);
    assert_eq!(one.get(4), Some(-7));
    assert_eq!(two.get(4), Some(9));
    assert!(two.contains_key(5));
    assert!(!one.contains_key(5));
    let fewer = two.without(4);
    assert_eq!(fewer.get(4), None);
    assert_eq!(fewer.get(5), Some(8));
    assert_eq!(two.copy().get(4), Some(9));
    assert_eq!(empty.without(4).get(4), None);

    let none = IdList::new(&env);
    let longer = none.with_last(3).unwrap().with_last(3).unwrap();
    assert_eq!(none.len(), 0);
    assert_eq!(longer.len(), 2);
    assert!(longer.contains(3));
    assert!(!longer.contains(4));
    assert_eq!(longer.copy().with_last(4).unwrap().get(2), Some(4));
}

#[test]
fn arithmetic_rounds_toward_zero_and_stops_at_the_bounds() {
    assert_eq!(checked_div(-7, 2), Some(-3));
    assert_eq!(checked_div(7, -2), Some(-3));
    assert_eq!(checked_div(7, 0), None);
    assert_eq!(checked_div(i128::MIN, -1), None);
    assert_eq!(checked_mul_div(7, 100, 3), Some(233));
    assert_eq!(checked_mul_div(i128::MAX, 2, 2), None);
    assert_eq!(saturating_sub(5, 7), -2);
    assert_eq!(saturating_sub(i128::MIN, 1), i128::MIN);
    assert_eq!(saturating_sub(i128::MAX, -1), i128::MAX);
}

#[test]
fn statuses_and_sections_have_names() {
    assert_eq!(BetStatus::Active.name(), "Active");
    assert_eq!(BetStatus::Won.name(), "Won");
    assert_eq!(BetStatus::Lost.name(), "Lost");
    assert_eq!(BetStatus::Refunded.name(), "Refunded");
    assert_eq!(BetStatus::Cancelled.name(), "Cancelled");
    assert_eq!(GuardScope::PlaceBet.name(), "place_bet");
    assert_eq!(GuardScope::PlaceBets.name(), "batch_bet");
    assert_eq!(GuardScope::LockFunds.name(), "lock_fn");
    assert_eq!(GuardScope::UnlockFunds.name(), "ulck_fn");
}

#[test]
fn books_keep_bettors_in_the_order_of_their_listing() {
    let mut env = ledger();
    env.books.enlist(&env.host, &MARKET, &BOB).unwrap();
    env.books.enlist(&env.host, &MARKET, &BOB).unwrap();
    env.books.file(&env.host, &Bet::new(ALICE, MARKET, YES, 5, 1)).unwrap();
    let bettors = BetStorage::get_all_bets_for_market(&env, &MARKET);
    assert_eq!(bettors.len(), 2);
    assert_eq!(bettors.get(0), Some(BOB.id));
    assert_eq!(bettors.get(1), Some(ALICE.id));
    assert_eq!(env.books.bet(&MARKET, &BOB), None);
    env.books.strike(&MARKET, &ALICE);
    assert_eq!(env.books.bet(&MARKET, &ALICE), None);
    assert_eq!(BetStorage::get_all_bets_for_market(&env, &MARKET).len(), 2);
    assert_eq!(BetStorage::check_store(&env, &MARKET, &CAROL), Ok(()));
}
