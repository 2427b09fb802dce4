//! Event topics that stay readable over contract upgrades: the registry of
//! topics and their schema versions, the nonces that number the events of a
//! topic, and the bridge for topics that change their name.
use vstd::prelude::*;

use crate::host::{IdMap, Topic};
use crate::table::{Key, Table};

verus! {

/// The topics: symbol, schema version and readable name of each.
pub const TOPIC_REGISTRY: [(&'static str, u32, &'static str); 9] = [
    ("mkt_crt", 1, "market_created"),
    ("bet_plc", 1, "bet_placed"),
    ("bet_upd", 1, "bet_status_updated"),
    ("bet_cap", 1, "max_bet_cap_set"),
    ("vote", 1, "vote_cast"),
    ("oracle_rs", 1, "oracle_result"),
    ("dispt_opn", 1, "dispute_opened"),
    ("tier_chg", 1, "storage_tier_changed"),
    ("pay_rem", 1, "payout_remainder_allocated"),
];

/// The topics that have changed their symbol: the old and the new one of each.
pub const TOPIC_ALIASES: [(&'static str, &'static str); 0] = [];

/// A topic and the version of the events under it.
#[derive(Clone, Copy, Debug, PartialEq, Eq, Structural)]
pub struct TopicDescriptor {
    pub topic: Topic,
    pub schema_version: u32,
}

/// The nonce of a topic at the time of a snapshot.
#[derive(Clone, Copy, Debug, PartialEq, Eq, Structural)]
pub struct NonceSnapshot {
    pub topic: Topic,
    pub value: u64,
}

/// That the events of one topic are now published under another.
#[derive(Clone, Copy, Debug, PartialEq, Eq, Structural)]
pub struct TopicAlias {
    pub old_topic: Topic,
    pub new_topic: Topic,
    pub registered_at: u32,
    pub since_version: u64,
}

impl Key for Topic {
    fn same(&self, other: &Topic) -> (r: bool) {
        *self == *other
    }
}

/// The ledger entries that events need, and the events published so far, each
/// with data of type `D`.
pub struct EventLedger<D> {
    /// The host that keeps the maps.
    pub host: soroban_sdk::Env,
    /// The number of the ledger that is being closed.
    pub sequence: u32,
    pub nonces: Table<Topic, u64>,
    pub snapshot: Vec<NonceSnapshot>,
    pub aliases: Table<Topic, TopicAlias>,
    /// Topic and data of each event.
    pub published: Vec<(Topic, D)>,
}

/// The mathematical value of an [`EventLedger`].
#[verifier::ext_equal]
pub struct EventLedgerView<D> {
    pub sequence: u32,
    pub nonces: Map<Topic, u64>,
    pub snapshot: Seq<NonceSnapshot>,
    pub aliases: Map<Topic, TopicAlias>,
    pub published: Seq<(Topic, D)>,
}

impl<D> View for EventLedger<D> {
    type V = EventLedgerView<D>;

    open spec fn view(&self) -> EventLedgerView<D> {
        EventLedgerView {
            sequence: self.sequence,
            nonces: self.nonces@,
            snapshot: self.snapshot@,
            aliases: self.aliases@,
            published: self.published@,
        }
    }
}

/// The descriptor of topic `i` of the registry.
pub open spec fn descriptor(i: int) -> TopicDescriptor {
    TopicDescriptor {
        topic: Topic::named(TOPIC_REGISTRY@[i].0@),
        schema_version: TOPIC_REGISTRY@[i].1,
    }
}

/// That `r` describes the first topic with a readable name; `None` where there
/// is no such topic.
pub open spec fn describes_name(r: Option<TopicDescriptor>, name: Seq<char>) -> bool {
    match r {
        Some(d) => exists|i: int|
            0 <= i < TOPIC_REGISTRY@.len() && TOPIC_REGISTRY@[i].2@ == name && d == #[trigger] descriptor(
                i,
            ) && forall|j: int| 0 <= j < i ==> #[trigger] TOPIC_REGISTRY@[j].2@ != name,
        None => forall|i: int|
            0 <= i < TOPIC_REGISTRY@.len() ==> #[trigger] TOPIC_REGISTRY@[i].2@ != name,
    }
}

/// That `r` describes the first topic with a symbol; `None` where there is no
/// such topic.
pub open spec fn describes_symbol(r: Option<TopicDescriptor>, symbol: Seq<char>) -> bool {
    match r {
        Some(d) => exists|i: int|
            0 <= i < TOPIC_REGISTRY@.len() && TOPIC_REGISTRY@[i].0@ == symbol && d
                == #[trigger] descriptor(i) && forall|j: int|
                0 <= j < i ==> #[trigger] TOPIC_REGISTRY@[j].0@ != symbol,
        None => forall|i: int|
            0 <= i < TOPIC_REGISTRY@.len() ==> #[trigger] TOPIC_REGISTRY@[i].0@ != symbol,
    }
}

/// The nonce of `topic` in `nonces`; zero before the first event.
pub open spec fn nonce_in(nonces: Map<Topic, u64>, topic: Topic) -> u64 {
    if nonces.contains_key(topic) {
        nonces[topic]
    } else {
        0
    }
}

/// The snapshot of the first `n` topics: those whose nonce is not zero.
pub open spec fn snapshot_of(nonces: Map<Topic, u64>, n: int) -> Seq<NonceSnapshot>
    decreases n,
{
    if n <= 0 {
        Seq::empty()
    } else {
        let topic = descriptor(n - 1).topic;
        let so_far = snapshot_of(nonces, n - 1);
        if nonce_in(nonces, topic) > 0 {
            so_far.push(NonceSnapshot { topic, value: nonce_in(nonces, topic) })
        } else {
            so_far
        }
    }
}

/// The nonces once the first `n` entries of `snapshot` have been restored: a
/// nonce below its entry is raised to it.
pub open spec fn restored(
    nonces: Map<Topic, u64>,
    snapshot: Seq<NonceSnapshot>,
    n: int,
) -> Map<Topic, u64>
    decreases n,
{
    if n <= 0 {
        nonces
    } else {
        let so_far = restored(nonces, snapshot, n - 1);
        let entry = snapshot[n - 1];
        if nonce_in(so_far, entry.topic) < entry.value {
            so_far.insert(entry.topic, entry.value)
        } else {
            so_far
        }
    }
}

/// How many of the first `n` entries of `snapshot` raise a nonce.
pub open spec fn restored_count(
    nonces: Map<Topic, u64>,
    snapshot: Seq<NonceSnapshot>,
    n: int,
) -> nat
    decreases n,
{
    if n <= 0 {
        0
    } else {
        let entry = snapshot[n - 1];
        restored_count(nonces, snapshot, n - 1) + if nonce_in(
            restored(nonces, snapshot, n - 1),
            entry.topic,
        ) < entry.value {
            1nat
        } else {
            0nat
        }
    }
}

impl<D> EventLedgerView<D> {
    /// The ledger with a snapshot of the nonces of all topics.
    pub open spec fn preserved(self) -> EventLedgerView<D> {
        EventLedgerView {
            snapshot: snapshot_of(self.nonces, TOPIC_REGISTRY@.len() as int),
            ..self
        }
    }

    /// The ledger with the nonces of the snapshot restored.
    pub open spec fn with_restored(self) -> EventLedgerView<D> {
        EventLedgerView {
            nonces: restored(self.nonces, self.snapshot, self.snapshot.len() as int),
            ..self
        }
    }

    /// The ledger without a snapshot.
    pub open spec fn cleared(self) -> EventLedgerView<D> {
        EventLedgerView { snapshot: Seq::empty(), ..self }
    }

    /// The ledger once the events of `old_topic` go to `new_topic`.
    pub open spec fn with_alias(
        self,
        old_topic: Topic,
        new_topic: Topic,
        since_version: u64,
    ) -> EventLedgerView<D> {
        EventLedgerView {
            aliases: self.aliases.insert(
                old_topic,
                TopicAlias { old_topic, new_topic, registered_at: self.sequence, since_version },
            ),
            ..self
        }
    }

    /// The ledger once the first `n` of `pairs` are registered as aliases.
    pub open spec fn with_aliases(
        self,
        pairs: Seq<(&'static str, &'static str)>,
        n: int,
        since_version: u64,
    ) -> EventLedgerView<D>
        decreases n,
    {
        if n <= 0 {
            self
        } else {
            self.with_aliases(pairs, n - 1, since_version).with_alias(
                Topic::named(pairs[n - 1].0@),
                Topic::named(pairs[n - 1].1@),
                since_version,
            )
        }
    }

    /// The ledger once `data` has been published under the new topic, and under
    /// the old one where it is another.
    pub open spec fn with_published(
        self,
        old_topic: Topic,
        new_topic: Topic,
        data: D,
    ) -> EventLedgerView<D> {
        EventLedgerView {
            published: if old_topic == new_topic {
                self.published.push((new_topic, data))
            } else {
                self.published.push((new_topic, data)).push((old_topic, data))
            },
            ..self
        }
    }
}

/// The symbols of the registry fit into one word each.
pub proof fn lemma_registry_symbols(i: int)
    requires
        0 <= i < TOPIC_REGISTRY@.len(),
    ensures
        crate::host::is_short_symbol(TOPIC_REGISTRY@[i].0@),
{
    reveal_strlit("mkt_crt");
    reveal_strlit("bet_plc");
    reveal_strlit("bet_upd");
    reveal_strlit("bet_cap");
    reveal_strlit("vote");
    reveal_strlit("oracle_rs");
    reveal_strlit("dispt_opn");
    reveal_strlit("tier_chg");
    reveal_strlit("pay_rem");
}

impl<D> EventLedger<D> {
    /// A ledger without events.
    pub fn new(host: soroban_sdk::Env, sequence: u32) -> (l: EventLedger<D>)
        ensures
            l@ == (EventLedgerView::<D> {
                sequence,
                nonces: Map::empty(),
                snapshot: Seq::empty(),
                aliases: Map::empty(),
                published: Seq::empty(),
            }),
    {
        EventLedger {
            host,
            sequence,
            nonces: Table::new(),
            snapshot: Vec::new(),
            aliases: Table::new(),
            published: Vec::new(),
        }
    }

    /// The nonce of a topic; zero before the first event.
    pub fn nonce(&self, topic: &Topic) -> (r: u64)
        ensures
            r == nonce_in(self@.nonces, *topic),
    {
        read_nonce(&self.nonces, topic)
    }

    /// Writes the nonce of a topic.
    pub fn set_nonce(&mut self, topic: Topic, value: u64)
        ensures
            final(self)@ == (EventLedgerView {
                nonces: old(self)@.nonces.insert(topic, value),
                ..old(self)@
            }),
    {
        self.nonces.set(topic, value);
    }
}

/// The nonce of a topic in `nonces`.
fn read_nonce(nonces: &Table<Topic, u64>, topic: &Topic) -> (r: u64)
    ensures
        r == nonce_in(nonces@, *topic),
{
    match nonces.get(topic) {
        Some(value) => *value,
        None => 0,
    }
}

/// Lookups in [`TOPIC_REGISTRY`].
pub struct EventTopicRegistry;

impl EventTopicRegistry {
    /// The descriptor of topic `i`.
    fn describe<D>(env: &EventLedger<D>, i: usize) -> (d: TopicDescriptor)
        requires
            i < TOPIC_REGISTRY@.len(),
        ensures
            d == descriptor(i as int),
    {
        proof {
            lemma_registry_symbols(i as int);
        }
        let table = TOPIC_REGISTRY;
        let (symbol, schema_version, _) = table[i];
        TopicDescriptor { topic: Topic::of_short_symbol(&env.host, symbol), schema_version }
    }

    /// The topic with a readable name, if there is one.
    pub fn get<D>(env: &EventLedger<D>, name: &str) -> (r: Option<TopicDescriptor>)
        ensures
            describes_name(r, name@),
    {
        let table = TOPIC_REGISTRY;
        let wanted = name.to_owned();
        let mut i: usize = 0;
        while i < table.len()
            invariant
                table == TOPIC_REGISTRY,
                wanted@ == name@,
                i <= table@.len(),
                forall|j: int| 0 <= j < i ==> #[trigger] TOPIC_REGISTRY@[j].2@ != name@,
            decreases table@.len() - i,
        {
            if table[i].2.to_owned() == wanted {
                return Some(Self::describe(env, i));
            }
            i = i + 1;
        }
        None
    }

    /// The topic with a symbol, if there is one.
    pub fn get_by_symbol<D>(env: &EventLedger<D>, symbol: &str) -> (r: Option<TopicDescriptor>)
        ensures
            describes_symbol(r, symbol@),
    {
        let table = TOPIC_REGISTRY;
        let wanted = symbol.to_owned();
        let mut i: usize = 0;
        while i < table.len()
            invariant
                table == TOPIC_REGISTRY,
                wanted@ == symbol@,
                i <= table@.len(),
                forall|j: int| 0 <= j < i ==> #[trigger] TOPIC_REGISTRY@[j].0@ != symbol@,
            decreases table@.len() - i,
        {
            if table[i].0.to_owned() == wanted {
                return Some(Self::describe(env, i));
            }
            i = i + 1;
        }
        None
    }

    /// All topics, in the order of the registry.
    pub fn get_all_topics<D>(env: &EventLedger<D>) -> (r: Vec<TopicDescriptor>)
        ensures
            r@ == Seq::new(TOPIC_REGISTRY@.len(), |i: int| descriptor(i)),
    {
        let mut topics: Vec<TopicDescriptor> = Vec::new();
        let mut i: usize = 0;
        while i < TOPIC_REGISTRY.len()
            invariant
                i <= TOPIC_REGISTRY@.len(),
                topics@ == Seq::new(i as nat, |j: int| descriptor(j)),
            decreases TOPIC_REGISTRY@.len() - i,
        {
            topics.push(Self::describe(env, i));
            i = i + 1;
            proof {
                assert(topics@ =~= Seq::new(i as nat, |j: int| descriptor(j)));
            }
        }
        topics
    }

    /// The number of topics.
    pub fn topic_count() -> (n: u32)
        ensures
            n == TOPIC_REGISTRY@.len(),
    {
        TOPIC_REGISTRY.len() as u32
    }

    /// The schema version of the topic with a symbol; zero where there is no
    /// such topic.
    pub fn schema_version<D>(env: &EventLedger<D>, symbol: &str) -> (r: u32)
        ensures
            exists|d: Option<TopicDescriptor>|
                {
                    &&& #[trigger] describes_symbol(d, symbol@)
                    &&& r == (match d {
                        Some(d) => d.schema_version,
                        None => 0,
                    })
                },
    {
        match Self::get_by_symbol(env, symbol) {
            Some(d) => d.schema_version,
            None => 0,
        }
    }

    /// The schema versions by topic.
    pub fn get_version_map<D>(env: &EventLedger<D>) -> (r: IdMap)
        ensures
            r@ == version_map(TOPIC_REGISTRY@.len() as int),
    {
        let mut versions = IdMap::new(&env.host);
        let mut i: usize = 0;
        while i < TOPIC_REGISTRY.len()
            invariant
                i <= TOPIC_REGISTRY@.len(),
                versions@ == version_map(i as int),
                versions@.dom().finite(),
                versions@.len() <= i,
            decreases TOPIC_REGISTRY@.len() - i,
        {
            let d = Self::describe(env, i);
            versions = versions.with_room(d.topic.word, d.schema_version as i128);
            i = i + 1;
        }
        versions
    }
}

/// The schema versions of the first `n` topics, by the word of the topic.
pub open spec fn version_map(n: int) -> Map<u64, i128>
    decreases n,
{
    if n <= 0 {
        Map::empty()
    } else {
        version_map(n - 1).insert(
            descriptor(n - 1).topic.word,
            descriptor(n - 1).schema_version as i128,
        )
    }
}

/// The older way to look up topics, by readable name.
pub struct EventSchemaRegistry;

impl EventSchemaRegistry {
    /// The topic with a readable name, if there is one.
    pub fn get_schema<D>(env: &EventLedger<D>, name: &str) -> (r: Option<TopicDescriptor>)
        ensures
            describes_name(r, name@),
    {
        EventTopicRegistry::get(env, name)
    }

    /// All topics, in the order of the registry.
    pub fn get_all_schemas<D>(env: &EventLedger<D>) -> (r: Vec<TopicDescriptor>)
        ensures
            r@ == Seq::new(TOPIC_REGISTRY@.len(), |i: int| descriptor(i)),
    {
        EventTopicRegistry::get_all_topics(env)
    }

    /// The number of topics.
    pub fn topic_count() -> (n: u32)
        ensures
            n == TOPIC_REGISTRY@.len(),
    {
        EventTopicRegistry::topic_count()
    }
}

/// Keeps the nonces of topics over an upgrade.
pub struct EventNonceGuard;

impl EventNonceGuard {
    /// Takes a snapshot of every nonce that is not zero, in place of an earlier
    /// snapshot.
    pub fn preserve_nonces<D>(env: &mut EventLedger<D>)
        ensures
            final(env)@ == old(env)@.preserved(),
    {
        let mut snapshot: Vec<NonceSnapshot> = Vec::new();
        let mut i: usize = 0;
        while i < TOPIC_REGISTRY.len()
            invariant
                i <= TOPIC_REGISTRY@.len(),
                env@ == old(env)@,
                snapshot@ == snapshot_of(env@.nonces, i as int),
            decreases TOPIC_REGISTRY@.len() - i,
        {
            let d = EventTopicRegistry::describe(env, i);
            let value: u64 = env.nonce(&d.topic);
            if value > 0 {
                snapshot.push(NonceSnapshot { topic: d.topic, value });
            }
            i = i + 1;
        }
        env.snapshot = snapshot;
    }

    /// Raises every nonce that is below its entry in the snapshot to that entry.
    /// Gives the number of nonces raised. The snapshot stays.
    pub fn restore_nonces<D>(env: &mut EventLedger<D>) -> (count: usize)
        ensures
            final(env)@ == old(env)@.with_restored(),
            count == restored_count(
                old(env)@.nonces,
                old(env)@.snapshot,
                old(env)@.snapshot.len() as int,
            ),
    {
        let ghost base = env@;
        let mut count: usize = 0;
        let mut i: usize = 0;
        while i < env.snapshot.len()
            invariant
                i <= base.snapshot.len(),
                count <= i,
                env@ == (EventLedgerView {
                    nonces: restored(base.nonces, base.snapshot, i as int),
                    ..base
                }),
                count == restored_count(base.nonces, base.snapshot, i as int),
            decreases base.snapshot.len() - i,
        {
            let entry = env.snapshot[i];
            if env.nonce(&entry.topic) < entry.value {
                env.set_nonce(entry.topic, entry.value);
                count = count + 1;
            }
            i = i + 1;
        }
        count
    }

    /// The snapshot; empty where none was taken.
    pub fn read_snapshot<D>(env: &EventLedger<D>) -> (r: Vec<NonceSnapshot>)
        ensures
            r@ == env@.snapshot,
    {
        let mut snapshot: Vec<NonceSnapshot> = Vec::new();
        let mut i: usize = 0;
        while i < env.snapshot.len()
            invariant
                i <= env@.snapshot.len(),
                snapshot@ == env@.snapshot.take(i as int),
            decreases env@.snapshot.len() - i,
        {
            let entry = env.snapshot[i];
            snapshot.push(entry);
            i = i + 1;
            proof {
                assert(snapshot@ =~= env@.snapshot.take(i as int));
            }
        }
        proof {
            assert(snapshot@ =~= env@.snapshot);
        }
        snapshot
    }

    /// Drops the snapshot.
    pub fn clear_snapshot<D>(env: &mut EventLedger<D>)
        ensures
            final(env)@ == old(env)@.cleared(),
    {
        env.snapshot = Vec::new();
    }
}

/// Publishes under the old and the new name of a topic.
pub struct EventCompatBridge;

impl EventCompatBridge {
    /// Records that the events of `old_topic` go to `new_topic`. A later record
    /// for the same topic takes the place of an earlier one.
    pub fn register_alias<D>(
        env: &mut EventLedger<D>,
        old_topic: Topic,
        new_topic: Topic,
        since_version: u64,
    )
        ensures
            final(env)@ == old(env)@.with_alias(old_topic, new_topic, since_version),
    {
        let alias = TopicAlias {
            old_topic,
            new_topic,
            registered_at: env.sequence,
            since_version,
        };
        env.aliases.set(old_topic, alias);
    }

    /// The record for a topic, if there is one.
    pub fn get_alias<D>(env: &EventLedger<D>, old_topic: &Topic) -> (r: Option<TopicAlias>)
        ensures
            r == crate::host::lookup(env@.aliases, *old_topic),
    {
        match env.aliases.get(old_topic) {
            Some(alias) => Some(*alias),
            None => None,
        }
    }

    /// Records every pair of [`TOPIC_ALIASES`].
    pub fn register_all_aliases<D>(env: &mut EventLedger<D>, since_version: u64)
        ensures
            final(env)@ == old(env)@.with_aliases(
                TOPIC_ALIASES@,
                TOPIC_ALIASES@.len() as int,
                since_version,
            ),
    {
        let table = TOPIC_ALIASES;
        let mut i: usize = 0;
        while i < table.len()
            invariant
                table == TOPIC_ALIASES,
                i <= table@.len(),
                env@ == old(env)@.with_aliases(table@, i as int, since_version),
            decreases table@.len() - i,
        {
            let (old_symbol, new_symbol) = table[i];
            let old_topic = Topic::of_short_symbol(&env.host, old_symbol);
            let new_topic = Topic::of_short_symbol(&env.host, new_symbol);
            Self::register_alias(env, old_topic, new_topic, since_version);
            i = i + 1;
        }
    }

    /// Publishes `data` under the new topic and, where the old one is another,
    /// under that as well.
    pub fn publish_with_compat<D: Copy>(
        env: &mut EventLedger<D>,
        old_topic: Topic,
        new_topic: Topic,
        data: &D,
    )
        ensures
            final(env)@ == old(env)@.with_published(old_topic, new_topic, *data),
    {
        env.published.push((new_topic, *data));
        if old_topic != new_topic {
            env.published.push((old_topic, *data));
        }
    }
}

/// What an upgrade does about events.
pub struct UpgradeManager;

impl UpgradeManager {
    /// Takes a snapshot of the nonces.
    pub fn preserve_event_nonces<D>(env: &mut EventLedger<D>)
        ensures
            final(env)@ == old(env)@.preserved(),
    {
        EventNonceGuard::preserve_nonces(env);
    }

    /// Restores the nonces of the snapshot and gives the number raised.
    pub fn restore_event_nonces<D>(env: &mut EventLedger<D>) -> (count: usize)
        ensures
            final(env)@ == old(env)@.with_restored(),
            count == restored_count(
                old(env)@.nonces,
                old(env)@.snapshot,
                old(env)@.snapshot.len() as int,
            ),
    {
        EventNonceGuard::restore_nonces(env)
    }

    /// Records the topics that have changed their symbol.
    pub fn register_topic_aliases<D>(env: &mut EventLedger<D>, since_version: u64)
        ensures
            final(env)@ == old(env)@.with_aliases(
                TOPIC_ALIASES@,
                TOPIC_ALIASES@.len() as int,
                since_version,
            ),
    {
        EventCompatBridge::register_all_aliases(env, since_version);
    }

    /// Before an upgrade: takes a snapshot of the nonces and records the topics
    /// that have changed their symbol.
    pub fn prepare_event_compat<D>(env: &mut EventLedger<D>, since_version: u64)
        ensures
            final(env)@ == old(env)@.preserved().with_aliases(
                TOPIC_ALIASES@,
                TOPIC_ALIASES@.len() as int,
                since_version,
            ),
    {
        Self::preserve_event_nonces(env);
        Self::register_topic_aliases(env, since_version);
    }

    /// After an upgrade: restores the nonces and drops the snapshot.
    pub fn finalize_event_compat<D>(env: &mut EventLedger<D>)
        ensures
            final(env)@ == old(env)@.with_restored().cleared(),
    {
        let _ = Self::restore_event_nonces(env);
        EventNonceGuard::clear_snapshot(env);
    }
}

} // verus!
