//! What each call on event topics does to the entries of an event ledger.
use vstd::prelude::*;

use crate::event_topics::{
    EventCompatBridge, EventLedger, EventLedgerView, EventNonceGuard, EventSchemaRegistry,
    EventTopicRegistry, NonceSnapshot, TopicAlias, TopicDescriptor, UpgradeManager,
    TOPIC_REGISTRY,
};
use crate::host::{IdMap, Topic};

verus! {

/// How many events a topic has had; none where there is no entry.
pub open spec fn events_of(nonces: Map<Topic, u64>, topic: Topic) -> int {
    if nonces.contains_key(topic) {
        nonces[topic] as int
    } else {
        0
    }
}

/// The topic and version in row `i` of the registry.
pub open spec fn row(i: int) -> TopicDescriptor {
    TopicDescriptor {
        topic: Topic::named(TOPIC_REGISTRY@[i].0@),
        schema_version: TOPIC_REGISTRY@[i].1,
    }
}

/// No two rows of the registry share a symbol or a readable name.
proof fn lemma_rows_differ(i: int, j: int)
    requires
        0 <= i < TOPIC_REGISTRY@.len(),
        0 <= j < TOPIC_REGISTRY@.len(),
        i != j,
    ensures
        TOPIC_REGISTRY@[i].0@ != TOPIC_REGISTRY@[j].0@,
        TOPIC_REGISTRY@[i].2@ != TOPIC_REGISTRY@[j].2@,
        row(i).topic != row(j).topic,
{
    if i < j {
        crate::topic_laws::law_registry_is_sound(i, j);
        crate::topic_laws::law_registry_topics_differ(i, j);
    } else {
        crate::topic_laws::law_registry_is_sound(j, i);
        crate::topic_laws::law_registry_topics_differ(j, i);
    }
}

/// A name of one to nine letters, digits and underscores, or an empty one, is a
/// topic, and its word is the packed name with the tag of small symbols; no other
/// name is.
pub proof fn law_names_of_topics(env: &soroban_sdk::Env, name: &str, r: Option<Topic>)
    requires
        call_ensures(Topic::new, (env, name), r),
    ensures
        r is Some <==> name@.len() <= 9 && forall|i: int|
            #![trigger name@[i]]
            0 <= i < name@.len() ==> name@[i] == '_' || '0' <= name@[i] <= '9' || 'A' <= name@[i]
                <= 'Z' || 'a' <= name@[i] <= 'z',
        r matches Some(topic) ==> topic.word == crate::host::packed(name@) * 256 + 14,
{
    if r is Some {
        crate::host::lemma_packed_fits(name@);
    }
    if name@.len() <= 9 && forall|i: int|
        #![trigger name@[i]]
        0 <= i < name@.len() ==> name@[i] == '_' || '0' <= name@[i] <= '9' || 'A' <= name@[i]
            <= 'Z' || 'a' <= name@[i] <= 'z' {
        assert(forall|i: int|
            0 <= i < name@.len() ==> crate::host::is_symbol_char(#[trigger] name@[i]));
    }
    if r is Some {
        assert forall|i: int| #![trigger name@[i]] 0 <= i < name@.len() implies name@[i] == '_'
            || '0' <= name@[i] <= '9' || 'A' <= name@[i] <= 'Z' || 'a' <= name@[i] <= 'z' by {
            assert(crate::host::is_symbol_char(name@[i]));
        }
    }
}

/// Looking a readable name up gives the row that has it, for every row and in the
/// older way too, and nothing for every other name.
pub proof fn law_looking_names_up<D>(
    env: &EventLedger<D>,
    name: &str,
    r: Option<TopicDescriptor>,
    schema: Option<TopicDescriptor>,
)
    requires
        call_ensures(EventTopicRegistry::get::<D>, (env, name), r),
        call_ensures(EventSchemaRegistry::get_schema::<D>, (env, name), schema),
    ensures
        schema == r,
        forall|i: int|
            0 <= i < TOPIC_REGISTRY@.len() && (#[trigger] TOPIC_REGISTRY@[i]).2@ == name@ ==> r
                == Some(row(i)),
        (forall|i: int|
            0 <= i < TOPIC_REGISTRY@.len() ==> (#[trigger] TOPIC_REGISTRY@[i]).2@ != name@)
            ==> r is None,
{
    assert forall|i: int|
        0 <= i < TOPIC_REGISTRY@.len() && (#[trigger] TOPIC_REGISTRY@[i]).2@ == name@ implies r
        == Some(row(i)) && schema == Some(row(i)) by {
        assert forall|j: int| 0 <= j < TOPIC_REGISTRY@.len() && j != i implies (
        #[trigger] TOPIC_REGISTRY@[j]).2@ != name@ by {
            lemma_rows_differ(i, j);
        }
        assert(row(i) == crate::event_topics::descriptor(i));
    }
}

/// Looking a symbol up gives the row that has it, with its version, and nothing for
/// every other symbol.
pub proof fn law_looking_symbols_up<D>(
    env: &EventLedger<D>,
    symbol: &str,
    r: Option<TopicDescriptor>,
    version: u32,
)
    requires
        call_ensures(EventTopicRegistry::get_by_symbol::<D>, (env, symbol), r),
        call_ensures(EventTopicRegistry::schema_version::<D>, (env, symbol), version),
    ensures
        forall|i: int|
            0 <= i < TOPIC_REGISTRY@.len() && (#[trigger] TOPIC_REGISTRY@[i]).0@ == symbol@ ==> r
                == Some(row(i)) && version == TOPIC_REGISTRY@[i].1,
        (forall|i: int|
            0 <= i < TOPIC_REGISTRY@.len() ==> (#[trigger] TOPIC_REGISTRY@[i]).0@ != symbol@)
            ==> r is None && version == 0,
{
    assert forall|i: int|
        0 <= i < TOPIC_REGISTRY@.len() && (#[trigger] TOPIC_REGISTRY@[i]).0@ == symbol@ implies r
        == Some(row(i)) && version == TOPIC_REGISTRY@[i].1 by {
        assert forall|j: int| 0 <= j < TOPIC_REGISTRY@.len() && j != i implies (
        #[trigger] TOPIC_REGISTRY@[j]).0@ != symbol@ by {
            lemma_rows_differ(i, j);
        }
        assert(row(i) == crate::event_topics::descriptor(i));
    }
}

/// The rows of the registry.
pub proof fn law_rows_of_the_registry()
    ensures
        TOPIC_REGISTRY@ == seq![
            ("mkt_crt", 1u32, "market_created"),
            ("bet_plc", 1u32, "bet_placed"),
            ("bet_upd", 1u32, "bet_status_updated"),
            ("bet_cap", 1u32, "max_bet_cap_set"),
            ("vote", 1u32, "vote_cast"),
            ("oracle_rs", 1u32, "oracle_result"),
            ("dispt_opn", 1u32, "dispute_opened"),
            ("tier_chg", 1u32, "storage_tier_changed"),
            ("pay_rem", 1u32, "payout_remainder_allocated"),
        ],
{
    assert(TOPIC_REGISTRY@ =~= seq![
        ("mkt_crt", 1u32, "market_created"),
        ("bet_plc", 1u32, "bet_placed"),
        ("bet_upd", 1u32, "bet_status_updated"),
        ("bet_cap", 1u32, "max_bet_cap_set"),
        ("vote", 1u32, "vote_cast"),
        ("oracle_rs", 1u32, "oracle_result"),
        ("dispt_opn", 1u32, "dispute_opened"),
        ("tier_chg", 1u32, "storage_tier_changed"),
        ("pay_rem", 1u32, "payout_remainder_allocated"),
    ]);
}

/// The list of topics has every row of the registry at its place, in the older way
/// too, and the counts are its length.
pub proof fn law_listing_topics<D>(
    env: &EventLedger<D>,
    topics: Vec<TopicDescriptor>,
    schemas: Vec<TopicDescriptor>,
    n: u32,
    m: u32,
)
    requires
        call_ensures(EventTopicRegistry::get_all_topics::<D>, (env,), topics),
        call_ensures(EventSchemaRegistry::get_all_schemas::<D>, (env,), schemas),
        call_ensures(EventTopicRegistry::topic_count, (), n),
        call_ensures(EventSchemaRegistry::topic_count, (), m),
    ensures
        topics@.len() == TOPIC_REGISTRY@.len(),
        n == TOPIC_REGISTRY@.len(),
        m == TOPIC_REGISTRY@.len(),
        schemas@ == topics@,
        forall|i: int| 0 <= i < topics@.len() ==> #[trigger] topics@[i] == row(i),
{
}

/// The map of versions has an entry for the topic of every row, with its version,
/// and no other.
pub proof fn law_versions_by_topic<D>(env: &EventLedger<D>, versions: IdMap)
    requires
        call_ensures(EventTopicRegistry::get_version_map::<D>, (env,), versions),
    ensures
        forall|i: int|
            0 <= i < TOPIC_REGISTRY@.len() ==> versions@.contains_key(
                (#[trigger] row(i)).topic.word,
            ) && versions@[row(i).topic.word] == row(i).schema_version,
        forall|word: u64| #[trigger]
            versions@.contains_key(word) ==> exists|i: int|
                0 <= i < TOPIC_REGISTRY@.len() && #[trigger] row(i).topic.word == word,
{
    let n = TOPIC_REGISTRY@.len() as int;
    lemma_version_map(n);
    assert forall|i: int| 0 <= i < n implies versions@.contains_key((#[trigger] row(i)).topic.word)
        && versions@[row(i).topic.word] == row(i).schema_version by {
        crate::topic_laws::law_version_map_covers_every_topic(n, i);
        assert(row(i) == crate::event_topics::descriptor(i));
    }
}

proof fn lemma_version_map(n: int)
    requires
        0 <= n <= TOPIC_REGISTRY@.len(),
    ensures
        forall|word: u64| #[trigger]
            crate::event_topics::version_map(n).contains_key(word) ==> exists|i: int|
                0 <= i < n && #[trigger] row(i).topic.word == word,
    decreases n,
{
    if n > 0 {
        lemma_version_map(n - 1);
        assert(row(n - 1) == crate::event_topics::descriptor(n - 1));
        assert forall|word: u64| #[trigger]
            crate::event_topics::version_map(n).contains_key(word) implies exists|i: int|
            0 <= i < n && #[trigger] row(i).topic.word == word by {
            if crate::event_topics::version_map(n - 1).contains_key(word) {
                let i = choose|i: int| 0 <= i < n - 1 && #[trigger] row(i).topic.word == word;
                assert(row(i).topic.word == word);
            } else {
                assert(row(n - 1).topic.word == word);
            }
        }
    }
}

/// A nonce is read as it was written, and zero before that.
pub proof fn law_reading_a_nonce<D>(env: &EventLedger<D>, topic: &Topic, r: u64)
    requires
        call_ensures(EventLedger::<D>::nonce, (env, topic), r),
    ensures
        r == events_of(env@.nonces, *topic),
{
}

/// Writing a nonce writes that nonce and nothing else.
pub proof fn law_writing_a_nonce<D>(
    env: &mut EventLedger<D>,
    topic: Topic,
    value: u64,
    other: Topic,
)
    requires
        call_ensures(EventLedger::<D>::set_nonce, (env, topic, value), ()),
    ensures
        events_of(final(env)@.nonces, topic) == value,
        other != topic ==> events_of(final(env)@.nonces, other) == events_of(
            old(env)@.nonces,
            other,
        ),
        (EventLedgerView { nonces: old(env)@.nonces, ..final(env)@ }) == old(env)@,
{
}

/// An event ledger starts without entries.
pub proof fn law_new_event_ledgers_are_empty<D>(
    host: soroban_sdk::Env,
    sequence: u32,
    ledger: EventLedger<D>,
    topic: Topic,
)
    requires
        call_ensures(EventLedger::<D>::new, (host, sequence), ledger),
    ensures
        ledger@.sequence == sequence,
        events_of(ledger@.nonces, topic) == 0,
        ledger@.snapshot.len() == 0,
        !ledger@.aliases.contains_key(topic),
        ledger@.published.len() == 0,
{
}

/// The entries for the first `n` rows that have had events, in the order of the
/// rows.
pub open spec fn entries_taken(nonces: Map<Topic, u64>, n: int) -> Seq<NonceSnapshot>
    decreases n,
{
    if n <= 0 {
        Seq::empty()
    } else if events_of(nonces, row(n - 1).topic) == 0 {
        entries_taken(nonces, n - 1)
    } else {
        entries_taken(nonces, n - 1) + seq![
            NonceSnapshot { topic: row(n - 1).topic, value: nonces[row(n - 1).topic] },
        ]
    }
}

proof fn lemma_entries(nonces: Map<Topic, u64>, n: int)
    ensures
        crate::event_topics::snapshot_of(nonces, n) == entries_taken(nonces, n),
    decreases n,
{
    if n > 0 {
        lemma_entries(nonces, n - 1);
        assert(row(n - 1) == crate::event_topics::descriptor(n - 1));
        assert(crate::event_topics::snapshot_of(nonces, n) =~= entries_taken(nonces, n));
    }
}

/// A snapshot has an entry for every topic of the registry that has had events,
/// with their number, and for no other; it takes the place of an earlier one, and
/// nothing else changes.
pub proof fn law_taking_a_snapshot<D>(env: &mut EventLedger<D>)
    requires
        call_ensures(EventNonceGuard::preserve_nonces::<D>, (env,), ()),
    ensures
        final(env)@.snapshot == entries_taken(old(env)@.nonces, TOPIC_REGISTRY@.len() as int),
        (EventLedgerView { snapshot: old(env)@.snapshot, ..final(env)@ }) == old(env)@,
{
    lemma_entries(old(env)@.nonces, TOPIC_REGISTRY@.len() as int);
}

/// The same holds before an upgrade.
pub proof fn law_taking_a_snapshot_for_an_upgrade<D>(env: &mut EventLedger<D>)
    requires
        call_ensures(UpgradeManager::preserve_event_nonces::<D>, (env,), ()),
    ensures
        final(env)@.snapshot == entries_taken(old(env)@.nonces, TOPIC_REGISTRY@.len() as int),
        (EventLedgerView { snapshot: old(env)@.snapshot, ..final(env)@ }) == old(env)@,
{
    lemma_entries(old(env)@.nonces, TOPIC_REGISTRY@.len() as int);
}

/// Whether entry `i` of a snapshot is above the nonce of its topic and above every
/// entry for that topic before it.
pub open spec fn entry_raises(
    nonces: Map<Topic, u64>,
    snapshot: Seq<NonceSnapshot>,
    i: int,
) -> bool {
    &&& events_of(nonces, snapshot[i].topic) < snapshot[i].value
    &&& forall|j: int|
        0 <= j < i && (#[trigger] snapshot[j]).topic == snapshot[i].topic ==> snapshot[j].value
            < snapshot[i].value
}

/// How many of the first `n` entries of a snapshot raise a nonce.
pub open spec fn entries_that_raise(
    nonces: Map<Topic, u64>,
    snapshot: Seq<NonceSnapshot>,
    n: int,
) -> int
    decreases n,
{
    if n <= 0 {
        0
    } else if entry_raises(nonces, snapshot, n - 1) {
        entries_that_raise(nonces, snapshot, n - 1) + 1
    } else {
        entries_that_raise(nonces, snapshot, n - 1)
    }
}

/// That the nonces `after` are those `before`, each raised to the highest of the
/// entries for its topic where that is above it.
pub open spec fn raised(
    before: Map<Topic, u64>,
    snapshot: Seq<NonceSnapshot>,
    n: int,
    after: Map<Topic, u64>,
) -> bool {
    &&& forall|topic: Topic| #[trigger] events_of(after, topic) >= events_of(before, topic)
    &&& forall|i: int|
        0 <= i < n ==> events_of(after, (#[trigger] snapshot[i]).topic) >= snapshot[i].value
    &&& forall|topic: Topic| #[trigger]
        events_of(after, topic) == events_of(before, topic) || exists|i: int|
            0 <= i < n && (#[trigger] snapshot[i]).topic == topic && snapshot[i].value == events_of(
                after,
                topic,
            )
}

proof fn lemma_raised(nonces: Map<Topic, u64>, snapshot: Seq<NonceSnapshot>, n: int)
    requires
        0 <= n <= snapshot.len(),
    ensures
        raised(nonces, snapshot, n, crate::event_topics::restored(nonces, snapshot, n)),
        crate::event_topics::restored_count(nonces, snapshot, n) == entries_that_raise(
            nonces,
            snapshot,
            n,
        ),
    decreases n,
{
    if n > 0 {
        lemma_raised(nonces, snapshot, n - 1);
        let entry = snapshot[n - 1];
        let t = crate::event_topics::restored(nonces, snapshot, n - 1);
        let u = crate::event_topics::restored(nonces, snapshot, n);
        assert(events_of(t, entry.topic) == crate::event_topics::nonce_in(t, entry.topic));
        assert(events_of(t, entry.topic) < entry.value <==> entry_raises(
            nonces,
            snapshot,
            n - 1,
        ));
        assert forall|topic: Topic| #[trigger]
            events_of(u, topic) >= events_of(nonces, topic) by {
            assert(events_of(t, topic) >= events_of(nonces, topic));
        }
        assert forall|i: int| 0 <= i < n implies events_of(u, (#[trigger] snapshot[i]).topic)
            >= snapshot[i].value by {
            if i < n - 1 {
                assert(events_of(t, snapshot[i].topic) >= snapshot[i].value);
            }
        }
        assert forall|topic: Topic| #[trigger]
            events_of(u, topic) == events_of(nonces, topic) || exists|i: int|
            0 <= i < n && (#[trigger] snapshot[i]).topic == topic && snapshot[i].value == events_of(
                u,
                topic,
            ) by {
            if topic == entry.topic && events_of(t, topic) < entry.value {
                assert(snapshot[n - 1].topic == topic && snapshot[n - 1].value == events_of(
                    u,
                    topic,
                ));
            } else {
                assert(events_of(u, topic) == events_of(t, topic));
                if events_of(t, topic) != events_of(nonces, topic) {
                    let i = choose|i: int|
                        0 <= i < n - 1 && (#[trigger] snapshot[i]).topic == topic
                            && snapshot[i].value == events_of(t, topic);
                    assert(snapshot[i].topic == topic && snapshot[i].value == events_of(u, topic));
                }
            }
        }
    }
}

/// Restoring raises every nonce to the highest entry for its topic where that is
/// above it, counts the entries that raise one, and changes nothing else.
pub proof fn law_restoring_a_snapshot<D>(env: &mut EventLedger<D>, count: usize)
    requires
        call_ensures(EventNonceGuard::restore_nonces::<D>, (env,), count),
    ensures
        ({
            let (s, t) = (old(env)@, final(env)@);
            let n = s.snapshot.len() as int;
            &&& raised(s.nonces, s.snapshot, n, t.nonces)
            &&& count == entries_that_raise(s.nonces, s.snapshot, n)
            &&& (EventLedgerView { nonces: s.nonces, ..t }) == s
        }),
{
    lemma_raised(old(env)@.nonces, old(env)@.snapshot, old(env)@.snapshot.len() as int);
}

/// The same holds of restoring during an upgrade.
pub proof fn law_restoring_a_snapshot_for_an_upgrade<D>(env: &mut EventLedger<D>, count: usize)
    requires
        call_ensures(UpgradeManager::restore_event_nonces::<D>, (env,), count),
    ensures
        ({
            let (s, t) = (old(env)@, final(env)@);
            let n = s.snapshot.len() as int;
            &&& raised(s.nonces, s.snapshot, n, t.nonces)
            &&& count == entries_that_raise(s.nonces, s.snapshot, n)
            &&& (EventLedgerView { nonces: s.nonces, ..t }) == s
        }),
{
    lemma_raised(old(env)@.nonces, old(env)@.snapshot, old(env)@.snapshot.len() as int);
}

/// After an upgrade the nonces of the snapshot are restored and the snapshot is
/// gone; nothing else has changed.
pub proof fn law_finishing_an_upgrade<D>(env: &mut EventLedger<D>)
    requires
        call_ensures(UpgradeManager::finalize_event_compat::<D>, (env,), ()),
    ensures
        ({
            let (s, t) = (old(env)@, final(env)@);
            &&& raised(s.nonces, s.snapshot, s.snapshot.len() as int, t.nonces)
            &&& t.snapshot.len() == 0
            &&& (EventLedgerView { nonces: s.nonces, snapshot: s.snapshot, ..t }) == s
        }),
{
    lemma_raised(old(env)@.nonces, old(env)@.snapshot, old(env)@.snapshot.len() as int);
}

/// Before an upgrade a snapshot is taken; as no topic has changed its symbol, no
/// alias is recorded and nothing else changes.
pub proof fn law_preparing_an_upgrade<D>(env: &mut EventLedger<D>, since_version: u64)
    requires
        call_ensures(UpgradeManager::prepare_event_compat::<D>, (env, since_version), ()),
    ensures
        final(env)@.snapshot == entries_taken(old(env)@.nonces, TOPIC_REGISTRY@.len() as int),
        (EventLedgerView { snapshot: old(env)@.snapshot, ..final(env)@ }) == old(env)@,
{
    lemma_entries(old(env)@.nonces, TOPIC_REGISTRY@.len() as int);
}

/// As no topic has changed its symbol, recording all aliases changes nothing.
pub proof fn law_recording_all_aliases<D>(env: &mut EventLedger<D>, since_version: u64)
    requires
        call_ensures(EventCompatBridge::register_all_aliases::<D>, (env, since_version), ()),
    ensures
        final(env)@ == old(env)@,
{
}

/// The same holds during an upgrade.
pub proof fn law_recording_all_aliases_for_an_upgrade<D>(
    env: &mut EventLedger<D>,
    since_version: u64,
)
    requires
        call_ensures(UpgradeManager::register_topic_aliases::<D>, (env, since_version), ()),
    ensures
        final(env)@ == old(env)@,
{
}

/// The snapshot is read as it was taken.
pub proof fn law_reading_a_snapshot<D>(env: &EventLedger<D>, r: Vec<NonceSnapshot>)
    requires
        call_ensures(EventNonceGuard::read_snapshot::<D>, (env,), r),
    ensures
        r@ == env@.snapshot,
{
}

/// Dropping a snapshot drops it and nothing else.
pub proof fn law_dropping_a_snapshot<D>(env: &mut EventLedger<D>)
    requires
        call_ensures(EventNonceGuard::clear_snapshot::<D>, (env,), ()),
    ensures
        final(env)@.snapshot.len() == 0,
        (EventLedgerView { snapshot: old(env)@.snapshot, ..final(env)@ }) == old(env)@,
{
}

/// An alias is recorded under its old topic, with the number of the ledger, and no
/// other alias changes.
pub proof fn law_recording_an_alias<D>(
    env: &mut EventLedger<D>,
    old_topic: Topic,
    new_topic: Topic,
    since_version: u64,
    other: Topic,
)
    requires
        call_ensures(
            EventCompatBridge::register_alias::<D>,
            (env, old_topic, new_topic, since_version),
            (),
        ),
    ensures
        ({
            let (s, t) = (old(env)@, final(env)@);
            &&& t.aliases.contains_key(old_topic)
            &&& t.aliases[old_topic].old_topic == old_topic
            &&& t.aliases[old_topic].new_topic == new_topic
            &&& t.aliases[old_topic].registered_at == s.sequence
            &&& t.aliases[old_topic].since_version == since_version
            &&& other != old_topic ==> t.aliases.contains_key(other) == s.aliases.contains_key(
                other,
            ) && t.aliases[other] == s.aliases[other]
            &&& (EventLedgerView { aliases: s.aliases, ..t }) == s
        }),
{
}

/// An alias is read as it was recorded.
pub proof fn law_reading_an_alias<D>(
    env: &EventLedger<D>,
    old_topic: &Topic,
    r: Option<TopicAlias>,
)
    requires
        call_ensures(EventCompatBridge::get_alias::<D>, (env, old_topic), r),
    ensures
        r is Some <==> env@.aliases.contains_key(*old_topic),
        r matches Some(alias) ==> alias == env@.aliases[*old_topic],
{
}

/// An event goes out under the new topic and, where the old one is another, under
/// that one next; the events before it stay, and nothing else changes.
pub proof fn law_publishing_an_event<D: Copy>(
    env: &mut EventLedger<D>,
    old_topic: Topic,
    new_topic: Topic,
    data: &D,
)
    requires
        call_ensures(
            EventCompatBridge::publish_with_compat::<D>,
            (env, old_topic, new_topic, data),
            (),
        ),
    ensures
        ({
            let (s, t) = (old(env)@, final(env)@);
            let n = s.published.len() as int;
            &&& t.published.len() == (if old_topic == new_topic {
                n + 1
            } else {
                n + 2
            })
            &&& t.published.take(n) == s.published
            &&& t.published[n] == (new_topic, *data)
            &&& old_topic != new_topic ==> t.published[n + 1] == (old_topic, *data)
            &&& (EventLedgerView { published: s.published, ..t }) == s
        }),
{
    let n = old(env)@.published.len() as int;
    assert(final(env)@.published.take(n) =~= old(env)@.published);
}

} // verus!
