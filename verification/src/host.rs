//! The collections of the Soroban host that the ledger is built on, and the
//! packed form of its short symbols.
//!
//! Everything the library takes from `soroban_sdk` on trust stands in this file.
//! A host map or list is a handle on an immutable host object: an update makes
//! a new object and re-points the handle, so a handle behaves as a value. The
//! host may abort an invocation that runs out of its budget of instructions or
//! memory; as with an allocator that runs dry, no contract speaks of that.
use vstd::prelude::*;
use vstd::string::StrSliceExecFns;

verus! {

/// The Soroban environment, which keeps the host objects.
#[verifier::external_type_specification]
#[verifier::external_body]
pub struct ExEnv(soroban_sdk::Env);

/// A handle on a host map.
#[verifier::external_type_specification]
#[verifier::external_body]
#[verifier::reject_recursive_types(K)]
#[verifier::reject_recursive_types(V)]
pub struct ExMap<K, V>(soroban_sdk::Map<K, V>);

/// A handle on a host list.
#[verifier::external_type_specification]
#[verifier::external_body]
#[verifier::reject_recursive_types(T)]
pub struct ExVec<T>(soroban_sdk::Vec<T>);

/// What a host map from identifiers to amounts holds.
pub uninterp spec fn map_entries(m: soroban_sdk::Map<u64, i128>) -> Map<u64, i128>;

/// That every key and every value in a host map converts to the Rust types of
/// its handle. A handle does not check this by itself.
pub uninterp spec fn map_is_typed(m: soroban_sdk::Map<u64, i128>) -> bool;

/// What a host list of identifiers holds, in order.
pub uninterp spec fn vec_items(v: soroban_sdk::Vec<u64>) -> Seq<u64>;

/// That every item in a host list converts to the Rust type of its handle.
pub uninterp spec fn vec_is_typed(v: soroban_sdk::Vec<u64>) -> bool;

/// `soroban_sdk::Map::new`: the map is empty.
#[verifier::external_body]
fn map_new(env: &soroban_sdk::Env) -> (m: soroban_sdk::Map<u64, i128>)
    ensures
        map_is_typed(m),
        (map_entries(m) == Map::<u64, i128>::empty()),
{
    soroban_sdk::Map::new(env)
}

/// `soroban_sdk::Map`'s `Clone`: a second handle on the same entries.
#[verifier::external_body]
fn map_clone(m: &soroban_sdk::Map<u64, i128>) -> (r: soroban_sdk::Map<u64, i128>)
    requires
        map_is_typed(*m),
    ensures
        map_is_typed(r),
        map_entries(r) == map_entries(*m),
{
    m.clone()
}

/// `soroban_sdk::Map::get`: the value under the key, or `None` when the map
/// holds no such key. The call panics on a value that does not convert, which
/// the precondition rules out.
#[verifier::external_body]
fn map_get(m: &soroban_sdk::Map<u64, i128>, k: u64) -> (r: Option<i128>)
    requires
        map_is_typed(*m),
    ensures
        r == (if map_entries(*m).contains_key(k) {
            Some(map_entries(*m)[k])
        } else {
            None
        }),
{
    m.get(k)
}

/// `soroban_sdk::Map::contains_key`: whether the map holds the key.
#[verifier::external_body]
fn map_contains_key(m: &soroban_sdk::Map<u64, i128>, k: u64) -> (r: bool)
    requires
        map_is_typed(*m),
    ensures
        r == map_entries(*m).contains_key(k),
{
    m.contains_key(k)
}

/// `soroban_sdk::Map::len`: the number of entries, which the host counts in 32
/// bits.
#[verifier::external_body]
fn map_len(m: &soroban_sdk::Map<u64, i128>) -> (n: u32)
    requires
        map_entries(*m).dom().finite(),
        map_entries(*m).len() <= u32::MAX,
    ensures
        n == map_entries(*m).len(),
{
    m.len()
}

/// `soroban_sdk::Map::set`: the key gets the value, in place of the one it had;
/// the other entries stay. The host refuses a new key in a map of `u32::MAX`
/// entries, which the precondition rules out.
#[verifier::external_body]
fn map_set(m: &mut soroban_sdk::Map<u64, i128>, k: u64, v: i128)
    requires
        map_is_typed(*old(m)),
        map_entries(*old(m)).dom().finite(),
        map_entries(*old(m)).contains_key(k) || map_entries(*old(m)).len() < u32::MAX,
    ensures
        map_is_typed(*final(m)),
        map_entries(*final(m)) == map_entries(*old(m)).insert(k, v),
{
    m.set(k, v);
}

/// `soroban_sdk::Map::remove`: the key is gone; the other entries stay.
#[verifier::external_body]
fn map_remove(m: &mut soroban_sdk::Map<u64, i128>, k: u64)
    requires
        map_is_typed(*old(m)),
    ensures
        map_is_typed(*final(m)),
        map_entries(*final(m)) == map_entries(*old(m)).remove(k),
{
    m.remove(k);
}

/// `soroban_sdk::Vec::new`: the list is empty.
#[verifier::external_body]
fn vec_new(env: &soroban_sdk::Env) -> (v: soroban_sdk::Vec<u64>)
    ensures
        vec_is_typed(v),
        vec_items(v) == Seq::<u64>::empty(),
{
    soroban_sdk::Vec::new(env)
}

/// `soroban_sdk::Vec`'s `Clone`: a second handle on the same items.
#[verifier::external_body]
fn vec_clone(v: &soroban_sdk::Vec<u64>) -> (r: soroban_sdk::Vec<u64>)
    requires
        vec_is_typed(*v),
    ensures
        vec_is_typed(r),
        vec_items(r) == vec_items(*v),
{
    v.clone()
}

/// `soroban_sdk::Vec::len`: the number of items, which the host counts in 32
/// bits.
#[verifier::external_body]
fn vec_len(v: &soroban_sdk::Vec<u64>) -> (n: u32)
    requires
        vec_items(*v).len() <= u32::MAX,
    ensures
        n == vec_items(*v).len(),
{
    v.len()
}

/// `soroban_sdk::Vec::get`: the item at the position, or `None` past the end.
/// The call panics on an item that does not convert, which the precondition
/// rules out.
#[verifier::external_body]
fn vec_get(v: &soroban_sdk::Vec<u64>, i: u32) -> (r: Option<u64>)
    requires
        vec_is_typed(*v),
        vec_items(*v).len() <= u32::MAX,
    ensures
        r == (if i < vec_items(*v).len() {
            Some(vec_items(*v)[i as int])
        } else {
            None
        }),
{
    v.get(i)
}

/// `soroban_sdk::Vec::push_back`: the item goes to the end.
#[verifier::external_body]
fn vec_push_back(v: &mut soroban_sdk::Vec<u64>, x: u64)
    requires
        vec_is_typed(*old(v)),
        vec_items(*old(v)).len() < u32::MAX,
    ensures
        vec_is_typed(*final(v)),
        vec_items(*final(v)) == vec_items(*old(v)).push(x),
{
    v.push_back(x);
}

/// `soroban_sdk::Vec::contains`: whether some item equals the given one.
#[verifier::external_body]
fn vec_contains(v: &soroban_sdk::Vec<u64>, x: u64) -> (r: bool)
    requires
        vec_is_typed(*v),
    ensures
        r == vec_items(*v).contains(x),
{
    v.contains(x)
}

/// Whether `c` may stand in a symbol.
pub open spec fn is_symbol_char(c: char) -> bool {
    c == '_' || '0' <= c <= '9' || 'A' <= c <= 'Z' || 'a' <= c <= 'z'
}

/// Whether `name` is a symbol short enough to be packed into one word.
pub open spec fn is_short_symbol(name: Seq<char>) -> bool {
    name.len() <= 9 && forall|i: int| 0 <= i < name.len() ==> is_symbol_char(#[trigger] name[i])
}

/// The six-bit code of a character of a symbol.
pub open spec fn symbol_code(c: char) -> int {
    if c == '_' {
        1
    } else if '0' <= c <= '9' {
        2 + (c as int - '0' as int)
    } else if 'A' <= c <= 'Z' {
        12 + (c as int - 'A' as int)
    } else {
        38 + (c as int - 'a' as int)
    }
}

/// The codes of `name`, six bits each, the last one lowest.
pub open spec fn packed(name: Seq<char>) -> int
    decreases name.len(),
{
    if name.len() == 0 {
        0
    } else {
        packed(name.drop_last()) * 64 + symbol_code(name.last())
    }
}

/// `soroban_sdk::Symbol::new` and `Val::get_payload`: a symbol of at most nine
/// characters is packed into the `Val` itself, above the eight bits of the tag of
/// small symbols, which is 14. The call panics on a name with other characters,
/// which the precondition rules out.
#[verifier::external_body]
fn short_symbol_new(env: &soroban_sdk::Env, name: &str) -> (r: u64)
    requires
        is_short_symbol(name@),
    ensures
        r == packed(name@) * 256 + 14,
{
    soroban_sdk::Symbol::new(env, name).to_val().get_payload()
}

/// A map from identifiers to amounts, kept by the Soroban host.
pub struct IdMap {
    inner: soroban_sdk::Map<u64, i128>,
}

impl View for IdMap {
    type V = Map<u64, i128>;

    closed spec fn view(&self) -> Map<u64, i128> {
        map_entries(self.inner)
    }
}

impl IdMap {
    #[verifier::type_invariant]
    spec fn is_typed(self) -> bool {
        &&& map_is_typed(self.inner)
        &&& map_entries(self.inner).dom().finite()
        &&& map_entries(self.inner).len() <= u32::MAX
    }

    /// The empty map.
    pub fn new(env: &soroban_sdk::Env) -> (m: IdMap)
        ensures
            m@ == Map::<u64, i128>::empty(),
    {
        IdMap { inner: map_new(env) }
    }

    /// A second map with the same entries.
    pub fn copy(&self) -> (m: IdMap)
        ensures
            m@ == self@,
    {
        proof {
            use_type_invariant(self);
        }
        IdMap { inner: map_clone(&self.inner) }
    }

    /// The amount under `id`, if there is one.
    pub fn get(&self, id: u64) -> (r: Option<i128>)
        ensures
            r == lookup(self@, id),
    {
        proof {
            use_type_invariant(self);
        }
        map_get(&self.inner, id)
    }

    /// Whether there is an amount under `id`.
    pub fn contains_key(&self, id: u64) -> (r: bool)
        ensures
            r == self@.contains_key(id),
    {
        proof {
            use_type_invariant(self);
        }
        map_contains_key(&self.inner, id)
    }

    /// The map with `amount` under `id`, or `None` when the map is full and has
    /// no entry there.
    pub fn with(&self, id: u64, amount: i128) -> (r: Option<IdMap>)
        ensures
            r is Some <==> has_room(self@, id),
            r matches Some(m) ==> m@ == self@.insert(id, amount),
    {
        proof {
            use_type_invariant(self);
        }
        if !map_contains_key(&self.inner, id) && map_len(&self.inner) == u32::MAX {
            return None;
        }
        Some(self.with_room(id, amount))
    }

    /// The map with `amount` under `id`, where there is known to be room.
    pub(crate) fn with_room(&self, id: u64, amount: i128) -> (m: IdMap)
        requires
            has_room(self@, id),
        ensures
            m@ == self@.insert(id, amount),
    {
        proof {
            use_type_invariant(self);
        }
        let mut inner = map_clone(&self.inner);
        map_set(&mut inner, id, amount);
        IdMap { inner }
    }

    /// The map without an entry under `id`.
    pub fn without(&self, id: u64) -> (m: IdMap)
        ensures
            m@ == self@.remove(id),
    {
        proof {
            use_type_invariant(self);
        }
        let mut inner = map_clone(&self.inner);
        map_remove(&mut inner, id);
        IdMap { inner }
    }
}

/// Whether a host map with the entries `m` takes an entry under `id`: it has one
/// there, or fewer than the host can count.
pub open spec fn has_room<V>(m: Map<u64, V>, id: u64) -> bool {
    m.contains_key(id) || m.len() < u32::MAX
}

/// The value of `m` at `k`, if `m` has one.
pub open spec fn lookup<K, V>(m: Map<K, V>, k: K) -> Option<V> {
    if m.contains_key(k) {
        Some(m[k])
    } else {
        None
    }
}

/// A list of identifiers, kept by the Soroban host.
pub struct IdList {
    inner: soroban_sdk::Vec<u64>,
}

impl View for IdList {
    type V = Seq<u64>;

    closed spec fn view(&self) -> Seq<u64> {
        vec_items(self.inner)
    }
}

impl IdList {
    #[verifier::type_invariant]
    spec fn is_typed(self) -> bool {
        &&& vec_is_typed(self.inner)
        &&& vec_items(self.inner).len() <= u32::MAX
    }

    /// The empty list.
    pub fn new(env: &soroban_sdk::Env) -> (l: IdList)
        ensures
            l@ == Seq::<u64>::empty(),
    {
        IdList { inner: vec_new(env) }
    }

    /// A second list with the same items.
    pub fn copy(&self) -> (l: IdList)
        ensures
            l@ == self@,
    {
        proof {
            use_type_invariant(self);
        }
        IdList { inner: vec_clone(&self.inner) }
    }

    /// The number of items.
    pub fn len(&self) -> (n: u32)
        ensures
            n == self@.len(),
    {
        proof {
            use_type_invariant(self);
        }
        vec_len(&self.inner)
    }

    /// The item at position `i`, if there is one.
    pub fn get(&self, i: u32) -> (r: Option<u64>)
        ensures
            r == (if i < self@.len() {
                Some(self@[i as int])
            } else {
                None
            }),
    {
        proof {
            use_type_invariant(self);
        }
        vec_get(&self.inner, i)
    }

    /// Whether `id` is among the items.
    pub fn contains(&self, id: u64) -> (r: bool)
        ensures
            r == self@.contains(id),
    {
        proof {
            use_type_invariant(self);
        }
        vec_contains(&self.inner, id)
    }

    /// The list with `id` at its end, or `None` when the list is full.
    pub fn with_last(&self, id: u64) -> (r: Option<IdList>)
        ensures
            r is Some <==> self@.len() < u32::MAX,
            r matches Some(l) ==> l@ == self@.push(id),
    {
        proof {
            use_type_invariant(self);
        }
        if vec_len(&self.inner) == u32::MAX {
            return None;
        }
        let mut inner = vec_clone(&self.inner);
        vec_push_back(&mut inner, id);
        Some(IdList { inner })
    }
}

/// A short name packs into fewer bits than six for each character it may have.
pub proof fn lemma_packed_fits(name: Seq<char>)
    requires
        is_short_symbol(name),
    ensures
        0 <= packed(name) < 0x40_0000_0000_0000,
{
    lemma_packed_below(name);
    assert(vstd::arithmetic::power::pow(64, 9) == 0x40_0000_0000_0000) by {
        reveal_with_fuel(vstd::arithmetic::power::pow, 10);
    }
    vstd::arithmetic::power::lemma_pow_increases(64, name.len(), 9);
}

proof fn lemma_packed_below(name: Seq<char>)
    requires
        forall|i: int| 0 <= i < name.len() ==> is_symbol_char(#[trigger] name[i]),
    ensures
        0 <= packed(name) < vstd::arithmetic::power::pow(64, name.len()),
    decreases name.len(),
{
    reveal(vstd::arithmetic::power::pow);
    if name.len() > 0 {
        let shorter = name.drop_last();
        assert forall|i: int| 0 <= i < shorter.len() implies is_symbol_char(
            #[trigger] shorter[i],
        ) by {
            assert(is_symbol_char(name[i]));
        }
        lemma_packed_below(shorter);
        assert(is_symbol_char(name[name.len() - 1]));
    }
}

/// Names that pack to the same number are the same.
pub proof fn lemma_packed_injective(a: Seq<char>, b: Seq<char>)
    requires
        forall|i: int| 0 <= i < a.len() ==> is_symbol_char(#[trigger] a[i]),
        forall|i: int| 0 <= i < b.len() ==> is_symbol_char(#[trigger] b[i]),
        packed(a) == packed(b),
    ensures
        a == b,
    decreases a.len(),
{
    lemma_packed_below(a);
    lemma_packed_below(b);
    if a.len() > 0 {
        assert(is_symbol_char(a[a.len() - 1]));
        let shorter = a.drop_last();
        assert forall|i: int| 0 <= i < shorter.len() implies is_symbol_char(
            #[trigger] shorter[i],
        ) by {
            assert(is_symbol_char(a[i]));
        }
        lemma_packed_below(shorter);
    }
    if b.len() > 0 {
        assert(is_symbol_char(b[b.len() - 1]));
        let shorter = b.drop_last();
        assert forall|i: int| 0 <= i < shorter.len() implies is_symbol_char(
            #[trigger] shorter[i],
        ) by {
            assert(is_symbol_char(b[i]));
        }
        lemma_packed_below(shorter);
    }
    if a.len() > 0 && b.len() > 0 {
        lemma_packed_injective(a.drop_last(), b.drop_last());
        assert(a =~= a.drop_last().push(a.last()));
        assert(b =~= b.drop_last().push(b.last()));
    } else {
        assert(a =~= b);
    }
}

/// An event topic: the word that a short symbol is packed into.
#[derive(Clone, Copy, Debug, PartialEq, Eq, Structural)]
pub struct Topic {
    pub word: u64,
}

impl Topic {
    /// The topic of a short symbol.
    pub open spec fn named(name: Seq<char>) -> Topic {
        Topic { word: (packed(name) * 256 + 14) as u64 }
    }

    /// The topic of a name that is known to be a short symbol.
    pub(crate) fn of_short_symbol(env: &soroban_sdk::Env, name: &str) -> (t: Topic)
        requires
            is_short_symbol(name@),
        ensures
            t == Topic::named(name@),
    {
        proof {
            lemma_packed_fits(name@);
        }
        Topic { word: short_symbol_new(env, name) }
    }

    /// The topic of a name, or `None` when the name is not a short symbol.
    pub fn new(env: &soroban_sdk::Env, name: &str) -> (r: Option<Topic>)
        ensures
            r == (if is_short_symbol(name@) {
                Some(Topic::named(name@))
            } else {
                None
            }),
    {
        let len: usize = name.unicode_len();
        if len > 9 {
            return None;
        }
        let mut i: usize = 0;
        while i < len
            invariant
                i <= len,
                len == name@.len(),
                forall|j: int| 0 <= j < i ==> is_symbol_char(#[trigger] name@[j]),
            decreases len - i,
        {
            let c = name.get_char(i);
            let valid = c == '_' || ('0' <= c && c <= '9') || ('A' <= c && c <= 'Z') || ('a' <= c
                && c <= 'z');
            if !valid {
                proof {
                    assert(!is_symbol_char(name@[i as int]));
                }
                return None;
            }
            i = i + 1;
        }
        Some(Self::of_short_symbol(env, name))
    }
}

} // verus!
