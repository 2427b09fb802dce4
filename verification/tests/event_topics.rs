use predictify_bets::event_topics::{
    EventCompatBridge, EventLedger, EventNonceGuard, EventSchemaRegistry, EventTopicRegistry,
    TopicAlias, UpgradeManager, TOPIC_ALIASES, TOPIC_REGISTRY,
};
use predictify_bets::host::Topic;
use soroban_sdk::testutils::EnvTestConfig;
use soroban_sdk::Env;

fn fresh_with<D>() -> EventLedger<D> {
    EventLedger::new(Env::new_with_config(EnvTestConfig { capture_snapshot_at_drop: false }), 0)
}

fn fresh() -> EventLedger<i128> {
    fresh_with()
}

fn topic<D>(env: &EventLedger<D>, name: &str) -> Topic {
    Topic::new(&env.host, name).unwrap()
}

fn write_nonce(env: &mut EventLedger<i128>, sym: &str, value: u64) {
    let t = topic(env, sym);
    env.set_nonce(t, value);
}

fn read_nonce(env: &EventLedger<i128>, sym: &str) -> u64 {
    env.nonce(&topic(env, sym))
}

#[test]
fn registry_returns_descriptor_for_every_registered_name() {
    let env = fresh();
    for &(_sym, _version, name) in TOPIC_REGISTRY.iter() {
        let desc = EventTopicRegistry::get(&env, name);
        assert!(
            desc.is_some(),
            "EventTopicRegistry::get returned None for registered name \"{}\"",
            name
        );
        let d = desc.unwrap();
        assert_eq!(d.schema_version, EventTopicRegistry::get(&env, name).unwrap().schema_version);
    }
}

#[test]
fn registry_get_by_symbol_covers_all_symbols() {
    let env = fresh();
    for &(sym, _version, _name) in TOPIC_REGISTRY.iter() {
        let desc = EventTopicRegistry::get_by_symbol(&env, sym);
        assert!(
            desc.is_some(),
            "get_by_symbol returned None for symbol \"{}\"",
            sym
        );
    }
}

#[test]
fn registry_get_all_topics_length_matches_constant_table() {
    let env = fresh();
    let topics = EventTopicRegistry::get_all_topics(&env);
    assert_eq!(
        topics.len() as usize,
        TOPIC_REGISTRY.len(),
        "get_all_topics length mismatch"
    );
}

#[test]
fn registry_topic_count_is_consistent() {
    assert_eq!(
        EventTopicRegistry::topic_count() as usize,
        TOPIC_REGISTRY.len()
    );
}

#[test]
fn registry_get_returns_none_for_unknown_name() {
    let env = fresh();
    // Must not panic; must return None.
    assert!(EventTopicRegistry::get(&env, "").is_none());
    assert!(EventTopicRegistry::get(&env, "no_such_event_xyzzy").is_none());
}

#[test]
fn registry_get_by_symbol_returns_none_for_unknown_symbol() {
    let env = fresh();
    assert!(EventTopicRegistry::get_by_symbol(&env, "").is_none());
    assert!(EventTopicRegistry::get_by_symbol(&env, "zzz_nope").is_none());
}

#[test]
fn all_schema_versions_are_at_least_one() {
    let env = fresh();
    for desc in EventTopicRegistry::get_all_topics(&env).iter() {
        assert!(
            desc.schema_version >= 1,
            "schema_version must be >= 1 for topic {:?}",
            desc.topic
        );
    }
}

#[test]
fn schema_version_lookup_returns_zero_for_unknown() {
    let env = fresh();
    assert_eq!(EventTopicRegistry::schema_version(&env, "zzz_none"), 0);
}

#[test]
fn get_version_map_covers_all_topics() {
    let env = fresh();
    let map = EventTopicRegistry::get_version_map(&env);
    for &(sym, version, _name) in TOPIC_REGISTRY.iter() {
        let key = topic(&env, sym);
        let stored = map.get(key.word);
        assert!(
            stored.is_some(),
            "get_version_map missing symbol \"{}\"",
            sym
        );
        assert_eq!(stored.unwrap(), version as i128);
    }
}

#[test]
fn event_schema_registry_delegates_to_topic_registry_for_all_names() {
    let env = fresh();
    // Every registered human-readable name must be resolvable via the old API.
    for &(_sym, version, name) in TOPIC_REGISTRY.iter() {
        let schema = EventSchemaRegistry::get_schema(&env, name);
        assert!(
            schema.is_some(),
            "EventSchemaRegistry::get_schema returned None for \"{}\"",
            name
        );
        assert_eq!(
            schema.unwrap().schema_version,
            version,
            "schema_version mismatch for \"{}\"",
            name
        );
    }
}

#[test]
fn event_schema_registry_returns_none_for_unknown() {
    let env = fresh();
    assert!(EventSchemaRegistry::get_schema(&env, "no_such_xyzzy").is_none());
}

#[test]
fn event_schema_registry_get_all_schemas_non_empty() {
    let env = fresh();
    let all = EventSchemaRegistry::get_all_schemas(&env);
    assert!(
        all.len() as usize >= TOPIC_REGISTRY.len(),
        "get_all_schemas must return at least {} entries",
        TOPIC_REGISTRY.len()
    );
}

#[test]
fn event_schema_registry_topic_count_matches() {
    assert_eq!(
        EventSchemaRegistry::topic_count() as usize,
        TOPIC_REGISTRY.len()
    );
}

#[test]
fn legacy_schema_names_still_resolve() {
    let env = fresh();
    for name in &["oracle_result", "dispute_opened", "storage_tier_changed", "payout_remainder_allocated"] {
        assert!(
            EventSchemaRegistry::get_schema(&env, name).is_some(),
            "Legacy name \"{}\" should still resolve",
            name
        );
    }
}

#[test]
fn datakey_event_topic_alias_stores_and_retrieves() {
    let mut env = fresh();
    let old_topic = topic(&env, "old_t");
    let new_topic = topic(&env, "new_t");
    let alias = TopicAlias {
        old_topic: old_topic,
        new_topic: new_topic,
        registered_at: env.sequence,
        since_version: 1_001_000,
    };

    env.aliases.set(old_topic, alias);

    let retrieved: Option<TopicAlias> = env.aliases.get(&old_topic).copied();
    assert!(retrieved.is_some());
    let r = retrieved.unwrap();
    assert_eq!(r.old_topic, old_topic);
    assert_eq!(r.new_topic, new_topic);
    assert_eq!(r.since_version, 1_001_000);
}

#[test]
fn register_alias_persists_and_get_alias_retrieves() {
    let mut env = fresh();
    let old_topic = topic(&env, "stale_t");
    let new_topic = topic(&env, "fresh_t");
    let since = 2_000_000_u64;

    EventCompatBridge::register_alias(&mut env, old_topic, new_topic, since);

    let alias = EventCompatBridge::get_alias(&env, &old_topic).expect("alias must be present");
    assert_eq!(alias.old_topic, old_topic);
    assert_eq!(alias.new_topic, new_topic);
    assert_eq!(alias.since_version, since);
}

#[test]
fn get_alias_returns_none_for_unregistered_symbol() {
    let env = fresh();
    let sym = topic(&env, "nope_t");
    assert!(EventCompatBridge::get_alias(&env, &sym).is_none());
}

#[test]
fn register_alias_is_idempotent_last_write_wins() {
    let mut env = fresh();
    let old_topic = topic(&env, "idem_t");
    let first_new = topic(&env, "first_t");
    let second_new = topic(&env, "secnd_t");

    EventCompatBridge::register_alias(&mut env, old_topic, first_new, 1_000);
    EventCompatBridge::register_alias(&mut env, old_topic, second_new, 2_000);

    let alias = EventCompatBridge::get_alias(&env, &old_topic).unwrap();
    // Second call wins.
    assert_eq!(alias.new_topic, second_new);
    assert_eq!(alias.since_version, 2_000);
}

#[test]
fn register_all_aliases_processes_constant_table() {
    let mut env = fresh();
    // Should not panic; idempotent even if TOPIC_ALIASES is empty.
    EventCompatBridge::register_all_aliases(&mut env, 1_001_000);

    // After registration, every pair in TOPIC_ALIASES should be retrievable.
    for &(old_sym, new_sym) in TOPIC_ALIASES.iter() {
        let old_topic = topic(&env, old_sym);
        let alias = EventCompatBridge::get_alias(&env, &old_topic)
            .expect(&format!("alias for \"{}\" must be present", old_sym));
        assert_eq!(alias.new_topic, topic(&env, new_sym));
    }
}

#[test]
fn preserve_and_restore_nonces_round_trip() {
    let mut env = fresh();

    // Write known nonces for a few topics.
    write_nonce(&mut env, "mkt_crt", 42);
    write_nonce(&mut env, "bet_plc", 7);
    write_nonce(&mut env, "vote",    99);

    // Snapshot.
    EventNonceGuard::preserve_nonces(&mut env);

    // Simulate migration clearing the nonces.
    write_nonce(&mut env, "mkt_crt", 0);
    write_nonce(&mut env, "bet_plc", 0);
    write_nonce(&mut env, "vote",    0);

    // Restore.
    let count = EventNonceGuard::restore_nonces(&mut env);
    assert!(count >= 3, "expected at least 3 nonces restored, got {}", count);

    assert_eq!(read_nonce(&env, "mkt_crt"), 42);
    assert_eq!(read_nonce(&env, "bet_plc"), 7);
    assert_eq!(read_nonce(&env, "vote"),    99);
}

#[test]
fn restore_never_rolls_back_a_nonce_that_advanced() {
    let mut env = fresh();

    // Snapshot at value 10.
    write_nonce(&mut env, "mkt_crt", 10);
    EventNonceGuard::preserve_nonces(&mut env);

    // A post-upgrade emission already advanced the nonce to 20.
    write_nonce(&mut env, "mkt_crt", 20);

    EventNonceGuard::restore_nonces(&mut env);

    // Must stay at 20, not roll back to 10.
    assert_eq!(read_nonce(&env, "mkt_crt"), 20);
}

#[test]
fn restore_with_no_snapshot_is_a_no_op() {
    let mut env = fresh();
    write_nonce(&mut env, "mkt_crt", 5);

    // No prior preserve call — snapshot key does not exist.
    let count = EventNonceGuard::restore_nonces(&mut env);

    // Nothing should have been modified.
    assert_eq!(count, 0);
    assert_eq!(read_nonce(&env, "mkt_crt"), 5);
}

#[test]
fn clear_snapshot_removes_stored_data() {
    let mut env = fresh();
    write_nonce(&mut env, "vote", 3);
    EventNonceGuard::preserve_nonces(&mut env);

    let snap = EventNonceGuard::read_snapshot(&env);
    assert!(snap.len() > 0, "snapshot should be non-empty");

    EventNonceGuard::clear_snapshot(&mut env);
    let after = EventNonceGuard::read_snapshot(&env);
    assert_eq!(after.len(), 0, "snapshot should be empty after clear");
}

#[test]
fn preserve_ignores_zero_nonces() {
    let mut env = fresh();

    // Write a zero nonce — should NOT be included in snapshot.
    write_nonce(&mut env, "mkt_crt", 0);

    EventNonceGuard::preserve_nonces(&mut env);

    let snap = EventNonceGuard::read_snapshot(&env);
    let has_mkt_crt = snap.iter().any(|s| {
        s.topic == topic(&env, "mkt_crt")
    });
    assert!(!has_mkt_crt, "zero nonces must not be snapshotted");
}

#[test]
fn compat_bridge_emits_single_event_when_topics_are_equal() {
    let mut env = fresh();
    let topic = topic(&env, "same_t");
    let data: i128 = 1234;

    EventCompatBridge::publish_with_compat(&mut env, topic, topic, &data);

    // Only one event should have been emitted.
    assert_eq!(env.published.len(), 1, "expected exactly 1 event when old == new topic");
}

#[test]
fn compat_bridge_emits_two_events_when_topics_differ() {
    let mut env = fresh();
    let old_topic = topic(&env, "old_ev");
    let new_topic = topic(&env, "new_ev");
    let data: i128 = 9876;

    EventCompatBridge::publish_with_compat(&mut env, old_topic, new_topic, &data);

    // Two events: one under new_topic, one under old_topic.
    assert_eq!(env.published.len(), 2, "expected 2 events for a renamed topic");
}

#[test]
fn compat_bridge_emits_are_idempotent_on_repeated_calls() {
    let mut env = fresh_with();
    let old = topic(&env, "rep_o");
    let new = topic(&env, "rep_n");
    let data: u32 = 7;

    EventCompatBridge::publish_with_compat(&mut env, old, new, &data);
    EventCompatBridge::publish_with_compat(&mut env, old, new, &data);

    // Soroban events are append-only; two calls produce four events total.
    // This test documents the expected behaviour (not a defect) and ensures
    // that repeated calls do not panic or corrupt storage.
    assert_eq!(env.published.len(), 4);
}

#[test]
fn upgrade_manager_preserve_and_restore_event_nonces_round_trip() {
    let mut env = fresh();
    write_nonce(&mut env, "mkt_crt", 100);
    write_nonce(&mut env, "bet_plc", 50);

    UpgradeManager::preserve_event_nonces(&mut env);

    // Simulate migration resetting nonces.
    write_nonce(&mut env, "mkt_crt", 0);
    write_nonce(&mut env, "bet_plc", 0);

    let restored = UpgradeManager::restore_event_nonces(&mut env);
    assert!(restored >= 2);

    assert_eq!(read_nonce(&env, "mkt_crt"), 100);
    assert_eq!(read_nonce(&env, "bet_plc"), 50);
}

#[test]
fn upgrade_manager_prepare_and_finalize_event_compat() {
    let mut env = fresh();
    write_nonce(&mut env, "vote", 77);

    UpgradeManager::prepare_event_compat(&mut env, 1_001_000);

    // Simulate nonce reset by migration.
    write_nonce(&mut env, "vote", 0);

    UpgradeManager::finalize_event_compat(&mut env);

    assert_eq!(read_nonce(&env, "vote"), 77);
}

#[test]
fn upgrade_manager_register_topic_aliases_does_not_panic() {
    let mut env = fresh();
    // Should be a no-op when TOPIC_ALIASES is empty; must not panic.
    UpgradeManager::register_topic_aliases(&mut env, 1_000_000);
}

#[test]
fn snapshot_survives_failed_restore_and_can_be_retried() {
    let mut env = fresh();
    write_nonce(&mut env, "mkt_crt", 55);

    EventNonceGuard::preserve_nonces(&mut env);

    // Simulate "failed upgrade" — snapshot written but nonce cleared.
    write_nonce(&mut env, "mkt_crt", 0);

    // The snapshot is still there (not cleared yet).
    let snap = EventNonceGuard::read_snapshot(&env);
    let mkt_snap = snap.iter().find(|s| s.topic == topic(&env, "mkt_crt"));
    assert!(mkt_snap.is_some(), "snapshot must be readable after failed restore");
    assert_eq!(mkt_snap.unwrap().value, 55);

    // A retry can still restore the nonce.
    EventNonceGuard::restore_nonces(&mut env);
    assert_eq!(read_nonce(&env, "mkt_crt"), 55);
}

#[test]
fn registry_lookup_is_deterministic_across_repeated_calls() {
    let env = fresh();
    let d1 = EventTopicRegistry::get(&env, "market_created").unwrap();
    let d2 = EventTopicRegistry::get(&env, "market_created").unwrap();
    assert_eq!(d1.schema_version, d2.schema_version);
    assert_eq!(d1.topic, d2.topic);
}

#[test]
fn schema_registry_get_schema_same_result_for_repeated_calls() {
    let env = fresh();
    let s1 = EventSchemaRegistry::get_schema(&env, "oracle_result").unwrap();
    let s2 = EventSchemaRegistry::get_schema(&env, "oracle_result").unwrap();
    assert_eq!(s1.schema_version, s2.schema_version);
    assert_eq!(s1.topic, s2.topic);
}

#[test]
fn all_topic_symbols_are_valid_soroban_symbols() {
    let env = fresh();
    // Symbol::new panics on invalid strings; this test will fail if any
    // entry in TOPIC_REGISTRY contains an invalid symbol string.
    for &(sym, _version, _name) in TOPIC_REGISTRY.iter() {
        let _s = soroban_sdk::Symbol::new(&env.host, sym); // must not panic
    }
}

#[test]
fn topics_are_short_symbols() {
    let env = fresh();
    assert!(Topic::new(&env.host, "tenletters").is_none());
    assert!(Topic::new(&env.host, "with-dash").is_none());
    assert!(Topic::new(&env.host, "nine_char").is_some());
    assert!(topic(&env, "vote") != topic(&env, "vote_"));
    // Six bits for each character, above a tag of eight bits.
    assert_eq!(topic(&env, "").word, 14);
    assert_eq!(topic(&env, "_").word, 256 + 14);
    assert_eq!(topic(&env, "9").word, 11 * 256 + 14);
    assert_eq!(topic(&env, "aZ").word, (38 * 64 + 37) * 256 + 14);
    assert_eq!(
        topic(&env, "vote").word,
        soroban_sdk::Symbol::new(&env.host, "vote").to_val().get_payload()
    );
}

#[test]
fn lookups_give_topic_and_version() {
    let env = fresh();
    let d = EventTopicRegistry::get(&env, "bet_placed").unwrap();
    assert_eq!(d.topic, topic(&env, "bet_plc"));
    assert_eq!(d.schema_version, 1);
    assert_eq!(EventTopicRegistry::get_by_symbol(&env, "bet_plc"), Some(d));
    assert_eq!(EventTopicRegistry::schema_version(&env, "bet_plc"), 1);
    assert_eq!(EventTopicRegistry::get_all_topics(&env)[1], d);
    assert!(EventTopicRegistry::get(&env, "bet_plc").is_none());
}

#[test]
fn new_topic_is_published_before_the_old_one() {
    let mut env = fresh();
    let old = topic(&env, "old_ev");
    let new = topic(&env, "new_ev");
    EventCompatBridge::publish_with_compat(&mut env, old, new, &5);
    assert_eq!(env.published, vec![(new, 5), (old, 5)]);
}

#[test]
fn restoring_counts_what_it_raises_and_finalizing_drops_the_snapshot() {
    let mut env = fresh();
    write_nonce(&mut env, "mkt_crt", 4);
    write_nonce(&mut env, "vote", 6);
    UpgradeManager::prepare_event_compat(&mut env, 1);
    write_nonce(&mut env, "mkt_crt", 0);
    assert_eq!(EventNonceGuard::restore_nonces(&mut env), 1);
    assert_eq!(EventNonceGuard::restore_nonces(&mut env), 0);
    assert_eq!(EventNonceGuard::read_snapshot(&env).len(), 2);
    UpgradeManager::finalize_event_compat(&mut env);
    assert_eq!(EventNonceGuard::read_snapshot(&env).len(), 0);
    assert_eq!(read_nonce(&env, "mkt_crt"), 4);
    assert_eq!(read_nonce(&env, "vote"), 6);
}

#[test]
fn alias_remembers_the_ledger_it_was_made_in() {
    let mut env = fresh();
    env.sequence = 12;
    let old = topic(&env, "old_ev");
    let new = topic(&env, "new_ev");
    EventCompatBridge::register_alias(&mut env, old, new, 3);
    assert_eq!(EventCompatBridge::get_alias(&env, &old).unwrap().registered_at, 12);
    assert!(EventCompatBridge::get_alias(&env, &new).is_none());
}

#[test]
fn nonces_of_different_topics_are_kept_apart() {
    let mut env = fresh();
    write_nonce(&mut env, "old_ev", 4);
    write_nonce(&mut env, "new_ev", 6);
    assert_eq!(read_nonce(&env, "old_ev"), 4);
    assert_eq!(read_nonce(&env, "new_ev"), 6);
}
