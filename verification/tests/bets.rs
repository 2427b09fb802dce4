use predictify_bets::analytics::BetAnalytics;
use predictify_bets::error::Error;
use predictify_bets::host::{IdList, IdMap};
use predictify_bets::ledger::{Context, FeeSettings, Ledger, Locks};
use predictify_bets::limits::{
    get_effective_bet_limits, get_market_max_bet_cap, remove_market_max_bet_cap,
    set_event_bet_limits, set_global_bet_limits, set_market_max_bet_cap, MAX_BET_AMOUNT,
    MIN_BET_AMOUNT,
};
use predictify_bets::manager::BetManager;
use predictify_bets::storage::BetStorage;
use predictify_bets::types::{
    Address, Bet, BetLimits, BetStats, BetStatus, Market, MarketState, Outcome, Symbol,
    UserStakeKey,
};
use predictify_bets::validator::BetValidator;
use soroban_sdk::testutils::EnvTestConfig;
use soroban_sdk::Env;

fn host() -> Env {
    Env::new_with_config(EnvTestConfig { capture_snapshot_at_drop: false })
}

fn id_of(name: &str) -> u64 {
    let mut id: u64 = 0xcbf29ce484222325;
    for b in name.bytes() {
        id = (id ^ b as u64).wrapping_mul(0x100000001b3);
    }
    id
}

fn symbol(name: &str) -> Symbol {
    Symbol { id: id_of(name) }
}

fn address(name: &str) -> Address {
    Address { id: id_of(name) }
}

fn outcome_named(name: &str) -> Outcome {
    Outcome { id: id_of(name) }
}

fn ledger() -> Ledger {
    Ledger::new(
        host(),
        Context {
            timestamp: 0,
            contract: address("contract"),
            token: Some(address("token")),
            admin: None,
            config: None,
            fee_config: None,
            platform_fee: None,
            plat_fee: None,
            betting_paused: false,
            cancelling_paused: false,
            resolving_paused: false,
            refunding_paused: false,
            locks: Locks {
                place_bet: false,
                place_bets: false,
                lock_funds: false,
                unlock_funds: false,
            },
            market_ttl_ledgers: 518_400,
        },
    )
}

fn test_market(env: &Ledger, end_time: u64) -> Market {
    let outcomes = IdList::new(&env.host)
        .with_last(outcome_named("yes").id)
        .unwrap()
        .with_last(outcome_named("no").id)
        .unwrap();
    Market::new(&env.host, outcomes, end_time, MarketState::Active)
}

#[test]
fn test_bet_amount_validation() {
    // Valid amount
    assert!(BetValidator::validate_bet_amount(MIN_BET_AMOUNT).is_ok());
    assert!(BetValidator::validate_bet_amount(10_000_000).is_ok());
    assert!(BetValidator::validate_bet_amount(MAX_BET_AMOUNT).is_ok());

    // Invalid - too low
    assert!(BetValidator::validate_bet_amount(MIN_BET_AMOUNT - 1).is_err());
    assert!(BetValidator::validate_bet_amount(0).is_err());
    assert!(BetValidator::validate_bet_amount(-1).is_err());

    // Invalid - too high
    assert!(BetValidator::validate_bet_amount(MAX_BET_AMOUNT + 1).is_err());
}

#[test]
fn test_bet_status_transitions() {
    let user = address("user");
    let market_id = symbol("test_market");
    let outcome = outcome_named("yes");

    // Create a bet
    let mut bet = Bet::new(user, market_id, outcome, 10_000_000, 0);

    // Initial state should be Active
    assert!(bet.is_active());
    assert!(!bet.is_resolved());
    assert!(!bet.is_winner());
    assert_eq!(bet.status, BetStatus::Active);

    // Mark as won
    bet.mark_as_won();
    assert!(!bet.is_active());
    assert!(bet.is_resolved());
    assert!(bet.is_winner());
    assert_eq!(bet.status, BetStatus::Won);

    // Create another bet to test lost status
    let user2 = address("user2");
    let mut bet2 = Bet::new(user2, symbol("test_market2"), outcome_named("no"), 5_000_000, 0);

    // Mark as lost
    bet2.mark_as_lost();
    assert!(!bet2.is_active());
    assert!(bet2.is_resolved());
    assert!(!bet2.is_winner());
    assert_eq!(bet2.status, BetStatus::Lost);

    // Create another bet to test refunded status
    let user3 = address("user3");
    let mut bet3 = Bet::new(user3, symbol("test_market3"), outcome_named("yes"), 15_000_000, 0);

    // Mark as refunded
    bet3.mark_as_refunded();
    assert!(!bet3.is_active());
    assert!(!bet3.is_resolved()); // Refunded is not considered "resolved"
    assert!(!bet3.is_winner());
    assert_eq!(bet3.status, BetStatus::Refunded);
}

#[test]
fn test_validate_market_for_betting_uses_end_time_when_bet_deadline_unset() {
    let mut env = ledger();
    let end_time = 10_000;
    let mut market = test_market(&env, end_time);
    market.bet_deadline = 0;

    env.context.timestamp = end_time - 1;
    assert!(BetValidator::validate_market_for_betting(&env, &market).is_ok());

    env.context.timestamp = end_time;
    assert_eq!(
        BetValidator::validate_market_for_betting(&env, &market),
        Err(Error::MarketClosed)
    );
}

#[test]
fn test_validate_market_for_betting_honors_explicit_bet_deadline() {
    let mut env = ledger();
    let end_time = 10_000;
    let mut market = test_market(&env, end_time);
    market.bet_deadline = 9_000;

    env.context.timestamp = 8_999;
    assert!(BetValidator::validate_market_for_betting(&env, &market).is_ok());

    env.context.timestamp = 9_000;
    assert_eq!(
        BetValidator::validate_market_for_betting(&env, &market),
        Err(Error::MarketClosed)
    );
}

#[test]
fn test_validate_market_for_betting_rejects_deadline_after_end_time() {
    let env = ledger();
    let mut market = test_market(&env, 10_000);
    market.bet_deadline = 10_001;

    assert_eq!(
        BetValidator::validate_market_for_betting(&env, &market),
        Err(Error::InvalidState)
    );
}

#[test]
fn test_validate_market_for_betting_rejects_negative_min_pool_size() {
    let env = ledger();
    let mut market = test_market(&env, 10_000);
    market.min_pool_size = Some(-1);

    assert_eq!(
        BetValidator::validate_market_for_betting(&env, &market),
        Err(Error::InvalidState)
    );
}

#[test]
fn test_fee_slippage_guard_accepts_equal_fee() {
    let mut env = ledger();
    env.context.config = Some(FeeSettings { fees_enabled: true, platform_fee_percentage: 200 });

    // max_fee_bps equal to the platform fee should pass
    assert!(BetValidator::validate_fee_slippage(&env, 200).is_ok());
}

#[test]
fn test_fee_slippage_guard_accepts_higher_fee() {
    let mut env = ledger();
    env.context.config = Some(FeeSettings { fees_enabled: true, platform_fee_percentage: 200 });

    // max_fee_bps higher than platform fee should pass
    assert!(BetValidator::validate_fee_slippage(&env, 500).is_ok());
}

#[test]
fn test_fee_slippage_guard_rejects_lower_fee() {
    let mut env = ledger();
    env.context.config = Some(FeeSettings { fees_enabled: true, platform_fee_percentage: 200 });

    // max_fee_bps lower than platform fee should fail
    assert_eq!(
        BetValidator::validate_fee_slippage(&env, 100),
        Err(Error::FeeExceedsMax)
    );
}

#[test]
fn test_fee_slippage_guard_fallback_storage() {
    let mut env = ledger();
    // Store platform fee in legacy storage key (used when ConfigManager fails)
    env.context.plat_fee = Some(250);

    // max_fee_bps equal to stored fee should pass
    assert!(BetValidator::validate_fee_slippage(&env, 250).is_ok());

    // max_fee_bps lower than stored fee should fail
    assert_eq!(
        BetValidator::validate_fee_slippage(&env, 200),
        Err(Error::FeeExceedsMax)
    );
}

#[test]
fn test_fee_slippage_guard_default_fallback() {
    let env = ledger();
    // No config stored and no legacy storage - should use DEFAULT_PLATFORM_FEE_PERCENTAGE (200)
    // max_fee_bps at default should pass
    assert!(BetValidator::validate_fee_slippage(&env, 200).is_ok());

    // max_fee_bps below default should fail
    assert_eq!(
        BetValidator::validate_fee_slippage(&env, 150),
        Err(Error::FeeExceedsMax)
    );
}

#[test]
fn test_get_effective_bet_limits_returns_defaults_when_empty() {
    let env = ledger();
    let market_id = symbol("mkt_no_limits");
    let limits = get_effective_bet_limits(&env, &market_id);
    assert_eq!(limits.min_bet, MIN_BET_AMOUNT);
    assert_eq!(limits.max_bet, MAX_BET_AMOUNT);
}

#[test]
fn test_get_effective_bet_limits_prefers_per_event_over_global() {
    let mut env = ledger();
    let market_id = symbol("mkt_evt");
    let global = BetLimits {
        min_bet: 2_000_000,
        max_bet: 50_000_000_000,
    };
    set_global_bet_limits(&mut env, &global).unwrap();
    let per_event = BetLimits {
        min_bet: 5_000_000,
        max_bet: 10_000_000_000,
    };
    set_event_bet_limits(&mut env, &market_id, &per_event).unwrap();

    let limits = get_effective_bet_limits(&env, &market_id);
    assert_eq!(limits.min_bet, 5_000_000);
    assert_eq!(limits.max_bet, 10_000_000_000);
}

#[test]
fn test_get_effective_bet_limits_falls_back_to_global() {
    let mut env = ledger();
    let market_id = symbol("mkt_glb");
    let global = BetLimits {
        min_bet: 3_000_000,
        max_bet: 80_000_000_000,
    };
    set_global_bet_limits(&mut env, &global).unwrap();

    let limits = get_effective_bet_limits(&env, &market_id);
    assert_eq!(limits.min_bet, 3_000_000);
    assert_eq!(limits.max_bet, 80_000_000_000);
}

#[test]
fn test_set_global_bet_limits_rejects_min_gt_max() {
    let mut env = ledger();
    let bad = BetLimits {
        min_bet: 10_000_000,
        max_bet: 1_000_000,
    };
    assert_eq!(set_global_bet_limits(&mut env, &bad), Err(Error::InvalidInput));
}

#[test]
fn test_set_global_bet_limits_rejects_below_absolute_min() {
    let mut env = ledger();
    let bad = BetLimits {
        min_bet: MIN_BET_AMOUNT - 1,
        max_bet: MAX_BET_AMOUNT,
    };
    assert_eq!(
        set_global_bet_limits(&mut env, &bad),
        Err(Error::InsufficientStake)
    );
}

#[test]
fn test_set_global_bet_limits_rejects_above_absolute_max() {
    let mut env = ledger();
    let bad = BetLimits {
        min_bet: MIN_BET_AMOUNT,
        max_bet: MAX_BET_AMOUNT + 1,
    };
    assert_eq!(set_global_bet_limits(&mut env, &bad), Err(Error::InvalidInput));
}

#[test]
fn test_set_event_bet_limits_persists_and_retrieves() {
    let mut env = ledger();
    let market_id = symbol("mkt_set");
    let limits = BetLimits {
        min_bet: 2_500_000,
        max_bet: 25_000_000_000,
    };
    set_event_bet_limits(&mut env, &market_id, &limits).unwrap();
    let retrieved = get_effective_bet_limits(&env, &market_id);
    assert_eq!(retrieved.min_bet, 2_500_000);
    assert_eq!(retrieved.max_bet, 25_000_000_000);
}

#[test]
fn test_set_market_max_bet_cap_and_get() {
    let mut env = ledger();
    let market_id = symbol("mkt_cap");
    assert_eq!(get_market_max_bet_cap(&env, &market_id), None);
    set_market_max_bet_cap(&mut env, &market_id, 5_000_000).unwrap();
    assert_eq!(get_market_max_bet_cap(&env, &market_id), Some(5_000_000));
}

#[test]
fn test_set_market_max_bet_cap_rejects_zero() {
    let mut env = ledger();
    let market_id = symbol("mkt_cap0");
    assert_eq!(
        set_market_max_bet_cap(&mut env, &market_id, 0),
        Err(Error::InvalidInput)
    );
}

#[test]
fn test_set_market_max_bet_cap_rejects_negative() {
    let mut env = ledger();
    let market_id = symbol("mkt_capneg");
    assert_eq!(
        set_market_max_bet_cap(&mut env, &market_id, -1),
        Err(Error::InvalidInput)
    );
}

#[test]
fn test_set_market_max_bet_cap_rejects_exceeding_max() {
    let mut env = ledger();
    let market_id = symbol("mkt_capmax");
    assert_eq!(
        set_market_max_bet_cap(&mut env, &market_id, MAX_BET_AMOUNT + 1),
        Err(Error::InvalidInput)
    );
}

#[test]
fn test_remove_market_max_bet_cap() {
    let mut env = ledger();
    let market_id = symbol("mkt_rm");
    set_market_max_bet_cap(&mut env, &market_id, 5_000_000).unwrap();
    assert_eq!(get_market_max_bet_cap(&env, &market_id), Some(5_000_000));
    remove_market_max_bet_cap(&mut env, &market_id);
    assert_eq!(get_market_max_bet_cap(&env, &market_id), None);
}

#[test]
fn test_bet_analytics_implied_probability_empty_market() {
    let env = ledger();
    let market_id = symbol("mkt_empty");
    let outcome = outcome_named("yes");
    assert_eq!(
        BetAnalytics::calculate_implied_probability(&env, &market_id, &outcome),
        0
    );
}

#[test]
fn test_bet_analytics_implied_probability_with_data() {
    let mut env = ledger();
    let market_id = symbol("mkt_prob");
    let yes = outcome_named("yes");
    let no = outcome_named("no");

    // Seed stats: 75 on "yes", 25 on "no" => 75% implied
    let mut stats = BetStats {
        total_bets: 2,
        total_amount_locked: 100,
        unique_bettors: 2,
        outcome_totals: IdMap::new(&env.host),
    };
    stats.outcome_totals = stats.outcome_totals.with(yes.id, 75).unwrap();
    stats.outcome_totals = stats.outcome_totals.with(no.id, 25).unwrap();
    BetStorage::store_market_bet_stats(&mut env, &market_id, &stats).unwrap();

    assert_eq!(
        BetAnalytics::calculate_implied_probability(&env, &market_id, &yes),
        75
    );
    assert_eq!(
        BetAnalytics::calculate_implied_probability(&env, &market_id, &no),
        25
    );
}

#[test]
fn test_bet_analytics_payout_multiplier_empty_outcome() {
    let env = ledger();
    let market_id = symbol("mkt_mult_empty");
    let outcome = outcome_named("yes");
    assert_eq!(
        BetAnalytics::calculate_payout_multiplier(&env, &market_id, &outcome),
        0
    );
}

#[test]
fn test_bet_analytics_payout_multiplier_with_data() {
    let mut env = ledger();
    let market_id = symbol("mkt_mult");
    let yes = outcome_named("yes");

    let mut stats = BetStats {
        total_bets: 1,
        total_amount_locked: 100,
        unique_bettors: 1,
        outcome_totals: IdMap::new(&env.host),
    };
    stats.outcome_totals = stats.outcome_totals.with(yes.id, 20).unwrap();
    BetStorage::store_market_bet_stats(&mut env, &market_id, &stats).unwrap();

    // multiplier = (100 * 100) / 20 = 500
    assert_eq!(
        BetAnalytics::calculate_payout_multiplier(&env, &market_id, &yes),
        500
    );
}

#[test]
fn test_bet_analytics_get_market_summary_delegates() {
    let mut env = ledger();
    let market_id = symbol("mkt_sum");
    let stats = BetStats {
        total_bets: 5,
        total_amount_locked: 50_000_000,
        unique_bettors: 5,
        outcome_totals: IdMap::new(&env.host),
    };
    BetStorage::store_market_bet_stats(&mut env, &market_id, &stats).unwrap();

    let summary = BetAnalytics::get_market_summary(&env, &market_id);
    assert_eq!(summary.total_bets, 5);
    assert_eq!(summary.total_amount_locked, 50_000_000);
    assert_eq!(summary.unique_bettors, 5);
}

#[test]
fn test_bet_storage_store_and_get_roundtrip() {
    let mut env = ledger();
    let user = address("user");
    let market_id = symbol("mkt_rt");
    let outcome = outcome_named("yes");

    let bet = Bet::new(user, market_id, outcome, 10_000_000, 0);
    BetStorage::store_bet(&mut env, &bet).unwrap();

    let stored = BetStorage::get_bet(&env, &market_id, &user).unwrap();
    assert_eq!(stored.amount, 10_000_000);
    assert_eq!(stored.status, BetStatus::Active);
}

#[test]
fn test_bet_storage_remove_bet() {
    let mut env = ledger();
    let user = address("user");
    let market_id = symbol("mkt_rm_bet");
    let outcome = outcome_named("no");

    let bet = Bet::new(user, market_id, outcome, 5_000_000, 0);
    BetStorage::store_bet(&mut env, &bet).unwrap();
    assert!(BetStorage::get_bet(&env, &market_id, &user).is_some());

    BetStorage::remove_bet(&mut env, &market_id, &user);
    assert!(BetStorage::get_bet(&env, &market_id, &user).is_none());
}

#[test]
fn test_bet_storage_get_all_bets_for_market_empty() {
    let env = ledger();
    let market_id = symbol("mkt_none");
    let bettors = BetStorage::get_all_bets_for_market(&env, &market_id);
    assert_eq!(bettors.len(), 0);
}

#[test]
fn test_bet_storage_get_all_bets_for_market_multiple() {
    let mut env = ledger();
    let market_id = symbol("mkt_multi");
    let user1 = address("user1");
    let user2 = address("user2");
    let outcome = outcome_named("yes");

    let bet1 = Bet::new(user1, market_id, outcome, 1_000_000, 0);
    let bet2 = Bet::new(user2, market_id, outcome, 2_000_000, 0);
    BetStorage::store_bet(&mut env, &bet1).unwrap();
    BetStorage::store_bet(&mut env, &bet2).unwrap();

    let bettors = BetStorage::get_all_bets_for_market(&env, &market_id);
    assert_eq!(bettors.len(), 2);
}

#[test]
fn test_effective_bet_deadline_zero_falls_back_to_end_time() {
    let env = ledger();
    let market = test_market(&env, 10_000);
    // bet_deadline defaults to 0 in test_market
    assert_eq!(
        BetValidator::effective_bet_deadline(&market).unwrap(),
        10_000
    );
}

#[test]
fn test_effective_bet_deadline_uses_explicit_value() {
    let env = ledger();
    let mut market = test_market(&env, 10_000);
    market.bet_deadline = 8_000;
    assert_eq!(
        BetValidator::effective_bet_deadline(&market).unwrap(),
        8_000
    );
}

#[test]
fn test_effective_bet_deadline_rejects_after_end_time() {
    let env = ledger();
    let mut market = test_market(&env, 10_000);
    market.bet_deadline = 10_001;
    assert_eq!(
        BetValidator::effective_bet_deadline(&market),
        Err(Error::InvalidState)
    );
}

#[test]
fn test_validate_bet_amount_against_limits_uses_per_event() {
    let mut env = ledger();
    let market_id = symbol("mkt_lim");
    let per_event = BetLimits {
        min_bet: 5_000_000,
        max_bet: 20_000_000_000,
    };
    set_event_bet_limits(&mut env, &market_id, &per_event).unwrap();

    // Below per-event min
    assert_eq!(
        BetValidator::validate_bet_amount_against_limits(&env, &market_id, 1_000_000),
        Err(Error::InsufficientStake)
    );
    // Within per-event bounds
    assert!(
        BetValidator::validate_bet_amount_against_limits(&env, &market_id, 10_000_000).is_ok()
    );
    // Above per-event max
    assert_eq!(
        BetValidator::validate_bet_amount_against_limits(&env, &market_id, 30_000_000_000),
        Err(Error::InvalidInput)
    );
}

#[test]
fn test_validate_bet_amount_against_limits_enforces_market_cap() {
    let mut env = ledger();
    let market_id = symbol("mkt_cap_val");
    set_market_max_bet_cap(&mut env, &market_id, 3_000_000).unwrap();

    // Within global limits but above per-market cap
    assert_eq!(
        BetValidator::validate_bet_amount_against_limits(&env, &market_id, 4_000_000),
        Err(Error::BetExceedsCap)
    );
    // Within per-market cap
    assert!(
        BetValidator::validate_bet_amount_against_limits(&env, &market_id, 2_000_000).is_ok()
    );
}

#[test]
fn test_atomic_bet_stats_are_prepared_without_writing_storage() {
    let mut env = ledger();
    let market_id = symbol("mkt_atomic");
    let outcome = outcome_named("yes");

    let mut stats = BetStats {
        total_bets: 1,
        total_amount_locked: 5_000_000,
        unique_bettors: 1,
        outcome_totals: IdMap::new(&env.host),
    };
    stats.outcome_totals = stats.outcome_totals.with(outcome.id, 5_000_000).unwrap();
    BetStorage::store_market_bet_stats(&mut env, &market_id, &stats).unwrap();

    let prepared =
        BetManager::prepare_market_bet_stats(&env, &market_id, &outcome, 2_000_000).unwrap();

    assert_eq!(prepared.total_bets, 2);
    assert_eq!(prepared.total_amount_locked, 7_000_000);
    assert_eq!(prepared.unique_bettors, 2);
    assert_eq!(
        prepared.outcome_totals.get(outcome.id),
        Some(7_000_000)
    );

    // Preparation must be read-only. The commit happens only after funds lock.
    let stored = BetStorage::get_market_bet_stats(&env, &market_id);
    assert_eq!(stored.total_bets, 1);
    assert_eq!(stored.total_amount_locked, 5_000_000);
    assert_eq!(stored.unique_bettors, 1);
    assert_eq!(stored.outcome_totals.get(outcome.id), Some(5_000_000));
}

#[test]
fn test_atomic_bet_stats_overflow_is_rejected_before_commit() {
    let mut env = ledger();
    let market_id = symbol("mkt_oflow");
    let outcome = outcome_named("yes");

    let mut stats = BetStats {
        total_bets: 1,
        total_amount_locked: i128::MAX,
        unique_bettors: 1,
        outcome_totals: IdMap::new(&env.host),
    };
    stats.outcome_totals = stats.outcome_totals.with(outcome.id, 1).unwrap();
    BetStorage::store_market_bet_stats(&mut env, &market_id, &stats).unwrap();

    assert!(matches!(
        BetManager::prepare_market_bet_stats(&env, &market_id, &outcome, 1),
        Err(Error::Overflow)
    ));

    let stored = BetStorage::get_market_bet_stats(&env, &market_id);
    assert_eq!(stored.total_amount_locked, i128::MAX);
    assert_eq!(stored.total_bets, 1);
}

#[test]
fn test_atomic_user_stake_is_prepared_without_writing_storage() {
    let mut env = ledger();
    let market_id = symbol("mkt_usr");
    let user = address("user");
    let key = UserStakeKey { user, market_id };

    env.user_stakes.set(key, 5_000_000i128);

    let prepared =
        BetValidator::prepare_user_stake_update(&env, &market_id, &user, 2_000_000).unwrap();

    assert_eq!(prepared, 7_000_000);
    assert_eq!(
        BetValidator::get_user_stake(&env, &market_id, &user),
        5_000_000
    );
}

#[test]
fn test_atomic_user_stake_overflow_is_rejected_before_commit() {
    let mut env = ledger();
    let market_id = symbol("mkt_uof");
    let user = address("user");
    let key = UserStakeKey { user, market_id };

    env.user_stakes.set(key, i128::MAX);

    assert_eq!(
        BetValidator::prepare_user_stake_update(&env, &market_id, &user, 1),
        Err(Error::Overflow)
    );
    assert_eq!(
        BetValidator::get_user_stake(&env, &market_id, &user),
        i128::MAX
    );
}
