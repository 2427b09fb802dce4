//! What holds of event topics over upgrades.
use vstd::prelude::*;

use crate::event_topics::{EventLedgerView, NonceSnapshot, TOPIC_REGISTRY};
use crate::host::Topic;

verus! {

/// The symbols of all topics fit into one word, no two topics share a symbol or
/// a readable name, and every topic has a schema version above zero.
pub proof fn law_registry_is_sound(i: int, j: int)
    requires
        0 <= i < j < TOPIC_REGISTRY@.len(),
    ensures
        crate::host::is_short_symbol(TOPIC_REGISTRY@[i].0@),
        crate::host::is_short_symbol(TOPIC_REGISTRY@[j].0@),
        TOPIC_REGISTRY@[i].0@ != TOPIC_REGISTRY@[j].0@,
        TOPIC_REGISTRY@[i].2@ != TOPIC_REGISTRY@[j].2@,
        TOPIC_REGISTRY@[i].1 >= 1,
        TOPIC_REGISTRY@[j].1 >= 1,
{
    crate::event_topics::lemma_registry_symbols(i);
    crate::event_topics::lemma_registry_symbols(j);
    reveal_strlit("mkt_crt");
    reveal_strlit("bet_plc");
    reveal_strlit("bet_upd");
    reveal_strlit("bet_cap");
    reveal_strlit("vote");
    reveal_strlit("oracle_rs");
    reveal_strlit("dispt_opn");
    reveal_strlit("tier_chg");
    reveal_strlit("pay_rem");
    reveal_strlit("market_created");
    reveal_strlit("bet_placed");
    reveal_strlit("bet_status_updated");
    reveal_strlit("max_bet_cap_set");
    reveal_strlit("vote_cast");
    reveal_strlit("oracle_result");
    reveal_strlit("dispute_opened");
    reveal_strlit("storage_tier_changed");
    reveal_strlit("payout_remainder_allocated");
    assert(TOPIC_REGISTRY@[i].0@[0] != TOPIC_REGISTRY@[j].0@[0] || TOPIC_REGISTRY@[i].0@[4]
        != TOPIC_REGISTRY@[j].0@[4]);
    assert(TOPIC_REGISTRY@[i].2@.len() != TOPIC_REGISTRY@[j].2@.len() || TOPIC_REGISTRY@[i].2@[0]
        != TOPIC_REGISTRY@[j].2@[0]);
}

/// Different short names are different topics.
pub proof fn law_names_tell_topics_apart(a: Seq<char>, b: Seq<char>)
    requires
        crate::host::is_short_symbol(a),
        crate::host::is_short_symbol(b),
        a != b,
    ensures
        Topic::named(a) != Topic::named(b),
{
    crate::host::lemma_packed_fits(a);
    crate::host::lemma_packed_fits(b);
    if Topic::named(a) == Topic::named(b) {
        crate::host::lemma_packed_injective(a, b);
    }
}

/// No two topics of the registry share a topic word, so that each has a nonce
/// and a schema version of its own.
pub proof fn law_registry_topics_differ(i: int, j: int)
    requires
        0 <= i < j < TOPIC_REGISTRY@.len(),
    ensures
        crate::event_topics::descriptor(i).topic != crate::event_topics::descriptor(j).topic,
{
    law_registry_is_sound(i, j);
    law_names_tell_topics_apart(TOPIC_REGISTRY@[i].0@, TOPIC_REGISTRY@[j].0@);
}

/// Writing the nonce of one name is read back, and leaves that of every other
/// name alone.
pub proof fn law_nonces_are_kept_apart(
    nonces: Map<Topic, u64>,
    a: Seq<char>,
    b: Seq<char>,
    value: u64,
)
    requires
        crate::host::is_short_symbol(a),
        crate::host::is_short_symbol(b),
        a != b,
    ensures
        crate::event_topics::nonce_in(nonces.insert(Topic::named(a), value), Topic::named(a))
            == value,
        crate::event_topics::nonce_in(nonces.insert(Topic::named(a), value), Topic::named(b))
            == crate::event_topics::nonce_in(nonces, Topic::named(b)),
{
    law_names_tell_topics_apart(a, b);
}

/// An event of a topic that changed its name is published twice, under the new
/// name and then under the old one; one that did not is published once.
pub proof fn law_renamed_topics_publish_twice<D>(
    s: EventLedgerView<D>,
    old_name: Seq<char>,
    new_name: Seq<char>,
    data: D,
)
    requires
        crate::host::is_short_symbol(old_name),
        crate::host::is_short_symbol(new_name),
    ensures
        ({
            let old_topic = Topic::named(old_name);
            let new_topic = Topic::named(new_name);
            let t = s.with_published(old_topic, new_topic, data);
            t.published == (if old_name == new_name {
                s.published.push((new_topic, data))
            } else {
                s.published.push((new_topic, data)).push((old_topic, data))
            })
        }),
{
    if old_name != new_name {
        law_names_tell_topics_apart(old_name, new_name);
    }
}

/// The map of schema versions has the version of every topic.
pub proof fn law_version_map_covers_every_topic(n: int, i: int)
    requires
        0 <= i < n <= TOPIC_REGISTRY@.len(),
    ensures
        crate::host::lookup(
            crate::event_topics::version_map(n),
            crate::event_topics::descriptor(i).topic.word,
        ) == Some(crate::event_topics::descriptor(i).schema_version as i128),
    decreases n,
{
    if i < n - 1 {
        law_version_map_covers_every_topic(n - 1, i);
        law_registry_topics_differ(i, n - 1);
    }
}

/// Restoring a snapshot never takes a nonce back.
pub proof fn law_restore_never_rolls_back(
    nonces: Map<Topic, u64>,
    snapshot: Seq<NonceSnapshot>,
    n: int,
    topic: Topic,
)
    requires
        0 <= n <= snapshot.len(),
    ensures
        crate::event_topics::nonce_in(
            crate::event_topics::restored(nonces, snapshot, n),
            topic,
        ) >= crate::event_topics::nonce_in(nonces, topic),
    decreases n,
{
    if n > 0 {
        law_restore_never_rolls_back(nonces, snapshot, n - 1, topic);
    }
}

/// Restoring a snapshot takes every nonce up to its entry.
pub proof fn law_restore_reaches_every_entry(
    nonces: Map<Topic, u64>,
    snapshot: Seq<NonceSnapshot>,
    n: int,
    i: int,
)
    requires
        0 <= i < n <= snapshot.len(),
    ensures
        crate::event_topics::nonce_in(
            crate::event_topics::restored(nonces, snapshot, n),
            snapshot[i].topic,
        ) >= snapshot[i].value,
    decreases n,
{
    if i < n - 1 {
        law_restore_reaches_every_entry(nonces, snapshot, n - 1, i);
    }
}

/// Where no nonce is below its entry, restoring changes nothing and counts
/// nothing.
pub proof fn law_restore_of_lower_nonces_is_nothing(
    nonces: Map<Topic, u64>,
    snapshot: Seq<NonceSnapshot>,
    n: int,
)
    requires
        0 <= n <= snapshot.len(),
        forall|i: int|
            0 <= i < snapshot.len() ==> crate::event_topics::nonce_in(
                nonces,
                (#[trigger] snapshot[i]).topic,
            ) >= snapshot[i].value,
    ensures
        crate::event_topics::restored(nonces, snapshot, n) == nonces,
        crate::event_topics::restored_count(nonces, snapshot, n) == 0,
    decreases n,
{
    if n > 0 {
        law_restore_of_lower_nonces_is_nothing(nonces, snapshot, n - 1);
        assert(crate::event_topics::nonce_in(nonces, snapshot[n - 1].topic) >= snapshot[n
            - 1].value);
    }
}

/// Without a snapshot, restoring changes nothing and counts nothing.
pub proof fn law_restore_without_snapshot_is_nothing<D>(s: EventLedgerView<D>)
    requires
        s.snapshot.len() == 0,
    ensures
        s.with_restored() == s,
        crate::event_topics::restored_count(s.nonces, s.snapshot, s.snapshot.len() as int) == 0,
{
}

/// Restoring twice is restoring once; the second time counts nothing.
pub proof fn law_restore_is_idempotent<D>(s: EventLedgerView<D>)
    ensures
        s.with_restored().with_restored() == s.with_restored(),
        crate::event_topics::restored_count(
            s.with_restored().nonces,
            s.snapshot,
            s.snapshot.len() as int,
        ) == 0,
{
    let t = s.with_restored();
    let n = s.snapshot.len() as int;
    assert forall|i: int| 0 <= i < n implies crate::event_topics::nonce_in(
        t.nonces,
        (#[trigger] s.snapshot[i]).topic,
    ) >= s.snapshot[i].value by {
        law_restore_reaches_every_entry(s.nonces, s.snapshot, n, i);
    }
    law_restore_of_lower_nonces_is_nothing(t.nonces, s.snapshot, n);
}

/// Whatever a snapshot says of a topic is the nonce of that topic when it was
/// taken, and is not zero.
proof fn lemma_snapshot_is_true(nonces: Map<Topic, u64>, n: int, i: int)
    requires
        0 <= i < crate::event_topics::snapshot_of(nonces, n).len(),
    ensures
        crate::event_topics::snapshot_of(nonces, n)[i].value == crate::event_topics::nonce_in(
            nonces,
            crate::event_topics::snapshot_of(nonces, n)[i].topic,
        ),
        crate::event_topics::snapshot_of(nonces, n)[i].value > 0,
    decreases n,
{
    if n > 0 {
        let so_far = crate::event_topics::snapshot_of(nonces, n - 1);
        if i < so_far.len() {
            lemma_snapshot_is_true(nonces, n - 1, i);
        }
    }
}

/// A snapshot of the first `n` topics has an entry for each of them that has
/// events.
proof fn lemma_snapshot_is_whole(nonces: Map<Topic, u64>, n: int, i: int) -> (j: int)
    requires
        0 <= i < n,
        crate::event_topics::nonce_in(nonces, crate::event_topics::descriptor(i).topic) > 0,
    ensures
        0 <= j < crate::event_topics::snapshot_of(nonces, n).len(),
        crate::event_topics::snapshot_of(nonces, n)[j].topic == crate::event_topics::descriptor(
            i,
        ).topic,
    decreases n,
{
    let so_far = crate::event_topics::snapshot_of(nonces, n - 1);
    if i < n - 1 {
        lemma_snapshot_is_whole(nonces, n - 1, i)
    } else {
        so_far.len() as int
    }
}

/// Restoring from entries that are the nonces of an earlier time never takes a
/// nonce above both its present and its earlier value.
proof fn lemma_restore_stays_below(
    nonces: Map<Topic, u64>,
    earlier: Map<Topic, u64>,
    m: int,
    n: int,
    topic: Topic,
)
    requires
        0 <= n <= crate::event_topics::snapshot_of(earlier, m).len(),
    ensures
        ({
            let after = crate::event_topics::restored(
                nonces,
                crate::event_topics::snapshot_of(earlier, m),
                n,
            );
            ||| crate::event_topics::nonce_in(after, topic) == crate::event_topics::nonce_in(
                nonces,
                topic,
            )
            ||| crate::event_topics::nonce_in(after, topic) == crate::event_topics::nonce_in(
                earlier,
                topic,
            )
        }),
    decreases n,
{
    if n > 0 {
        lemma_restore_stays_below(nonces, earlier, m, n - 1, topic);
        lemma_snapshot_is_true(earlier, m, n - 1);
    }
}

/// What an upgrade preserves comes back: whatever happens to the nonces between
/// snapshot and restoration, the nonce of each topic is afterwards the larger of
/// the one then and the one at the snapshot.
pub proof fn law_preserved_nonces_come_back<D>(
    s: EventLedgerView<D>,
    upgraded: EventLedgerView<D>,
    i: int,
)
    requires
        0 <= i < TOPIC_REGISTRY@.len(),
        upgraded.snapshot == s.preserved().snapshot,
    ensures
        ({
            let topic = crate::event_topics::descriptor(i).topic;
            let before = crate::event_topics::nonce_in(s.nonces, topic);
            let now = crate::event_topics::nonce_in(upgraded.nonces, topic);
            crate::event_topics::nonce_in(upgraded.with_restored().nonces, topic) == (if now
                < before {
                before
            } else {
                now
            })
        }),
{
    let topic = crate::event_topics::descriptor(i).topic;
    let n = TOPIC_REGISTRY@.len() as int;
    let snapshot = upgraded.snapshot;
    let len = snapshot.len() as int;
    law_restore_never_rolls_back(upgraded.nonces, snapshot, len, topic);
    lemma_restore_stays_below(upgraded.nonces, s.nonces, n, len, topic);
    if crate::event_topics::nonce_in(s.nonces, topic) > 0 {
        let j = lemma_snapshot_is_whole(s.nonces, n, i);
        lemma_snapshot_is_true(s.nonces, n, j);
        law_restore_reaches_every_entry(upgraded.nonces, snapshot, len, j);
    }
}

/// The last record for a topic is the one that is read back; the records of
/// other topics stay.
pub proof fn law_last_alias_wins<D>(
    s: EventLedgerView<D>,
    old_topic: Topic,
    first: Topic,
    second: Topic,
    first_version: u64,
    second_version: u64,
    other: Topic,
)
    requires
        other != old_topic,
    ensures
        ({
            let t = s.with_alias(old_topic, first, first_version).with_alias(
                old_topic,
                second,
                second_version,
            );
            &&& t == s.with_alias(old_topic, second, second_version)
            &&& t.aliases[old_topic].new_topic == second
            &&& crate::host::lookup(t.aliases, other) == crate::host::lookup(s.aliases, other)
        }),
{
    let t = s.with_alias(old_topic, first, first_version).with_alias(
        old_topic,
        second,
        second_version,
    );
    assert(t.aliases =~= s.with_alias(old_topic, second, second_version).aliases);
}

} // verus!
