//! A keyed table of ledger entries.
use vstd::prelude::*;

verus! {

/// A type whose values can be told apart at run time.
pub trait Key: Copy + Sized {
    /// Whether two keys are the same key.
    fn same(&self, other: &Self) -> (r: bool)
        ensures
            r == (*self == *other),
    ;
}

/// Entries by key, at most one for each key.
pub struct Table<K: Key, V> {
    rows: Vec<(K, V)>,
}

/// Whether row `i` of `rows` exists and is kept under `k`.
spec fn row_has_key<K, V>(rows: Seq<(K, V)>, i: int, k: K) -> bool {
    0 <= i < rows.len() && rows[i].0 == k
}

/// The map that `rows` write down.
spec fn rows_map<K, V>(rows: Seq<(K, V)>) -> Map<K, V> {
    Map::new(
        |k: K| exists|i: int| row_has_key(rows, i, k),
        |k: K| rows[choose|i: int| row_has_key(rows, i, k)].1,
    )
}

/// No key has two rows.
spec fn keys_distinct<K, V>(rows: Seq<(K, V)>) -> bool {
    forall|i: int, j: int|
        0 <= i < rows.len() && 0 <= j < rows.len() && i != j ==> (#[trigger] rows[i]).0 != (
        #[trigger] rows[j]).0
}

proof fn lemma_row_in_map<K, V>(rows: Seq<(K, V)>, i: int)
    requires
        keys_distinct(rows),
        0 <= i < rows.len(),
    ensures
        rows_map(rows).contains_key(rows[i].0),
        rows_map(rows)[rows[i].0] == rows[i].1,
{
    let k = rows[i].0;
    assert(row_has_key(rows, i, k));
    let j = choose|j: int| row_has_key(rows, j, k);
    assert(row_has_key(rows, j, k));
    assert(i == j);
}

proof fn lemma_key_in_rows<K, V>(rows: Seq<(K, V)>, k: K) -> (i: int)
    requires
        rows_map(rows).contains_key(k),
    ensures
        row_has_key(rows, i, k),
        rows_map(rows)[k] == rows[i].1,
{
    choose|i: int| row_has_key(rows, i, k)
}

/// Writing row `i` anew changes the map at that row's key alone.
proof fn lemma_update<K, V>(rows: Seq<(K, V)>, i: int, k: K, v: V)
    requires
        keys_distinct(rows),
        row_has_key(rows, i, k),
    ensures
        keys_distinct(rows.update(i, (k, v))),
        rows_map(rows.update(i, (k, v))) == rows_map(rows).insert(k, v),
{
    let new = rows.update(i, (k, v));
    assert(keys_distinct(new));
    assert forall|x: K| rows_map(new).contains_key(x) == rows_map(rows).insert(k, v).contains_key(
        x,
    ) by {
        if rows_map(new).contains_key(x) {
            let j = lemma_key_in_rows(new, x);
            lemma_row_in_map(rows, j);
        }
        if rows_map(rows).contains_key(x) {
            let j = lemma_key_in_rows(rows, x);
            lemma_row_in_map(new, j);
        }
        lemma_row_in_map(new, i);
    }
    assert forall|x: K| rows_map(new).contains_key(x) implies rows_map(new)[x] == rows_map(
        rows,
    ).insert(k, v)[x] by {
        let j = lemma_key_in_rows(new, x);
        if j != i {
            lemma_row_in_map(rows, j);
        }
        lemma_row_in_map(new, j);
    }
    assert(rows_map(new) =~= rows_map(rows).insert(k, v));
}

/// A new row for a key that had none adds that key to the map.
proof fn lemma_push<K, V>(rows: Seq<(K, V)>, k: K, v: V)
    requires
        keys_distinct(rows),
        forall|i: int| 0 <= i < rows.len() ==> (#[trigger] rows[i]).0 != k,
    ensures
        keys_distinct(rows.push((k, v))),
        rows_map(rows.push((k, v))) == rows_map(rows).insert(k, v),
{
    let new = rows.push((k, v));
    assert(keys_distinct(new));
    lemma_row_in_map(new, rows.len() as int);
    assert forall|x: K| rows_map(new).contains_key(x) == rows_map(rows).insert(k, v).contains_key(
        x,
    ) by {
        if rows_map(new).contains_key(x) {
            let j = lemma_key_in_rows(new, x);
            if j < rows.len() {
                lemma_row_in_map(rows, j);
            }
        }
        if rows_map(rows).contains_key(x) {
            let j = lemma_key_in_rows(rows, x);
            lemma_row_in_map(new, j);
        }
    }
    assert forall|x: K| rows_map(new).contains_key(x) implies rows_map(new)[x] == rows_map(
        rows,
    ).insert(k, v)[x] by {
        let j = lemma_key_in_rows(new, x);
        if j < rows.len() {
            lemma_row_in_map(rows, j);
        }
        lemma_row_in_map(new, j);
    }
    assert(rows_map(new) =~= rows_map(rows).insert(k, v));
}

/// Striking row `i` takes that row's key out of the map.
proof fn lemma_remove<K, V>(rows: Seq<(K, V)>, i: int, k: K)
    requires
        keys_distinct(rows),
        row_has_key(rows, i, k),
    ensures
        keys_distinct(rows.remove(i)),
        rows_map(rows.remove(i)) == rows_map(rows).remove(k),
{
    let new = rows.remove(i);
    assert(keys_distinct(new));
    assert forall|x: K| rows_map(new).contains_key(x) == rows_map(rows).remove(k).contains_key(
        x,
    ) by {
        if rows_map(new).contains_key(x) {
            let j = lemma_key_in_rows(new, x);
            lemma_row_in_map(rows, if j < i { j } else { j + 1 });
        }
        if rows_map(rows).remove(k).contains_key(x) {
            let j = lemma_key_in_rows(rows, x);
            lemma_row_in_map(new, if j < i { j } else { j - 1 });
        }
    }
    assert forall|x: K| rows_map(new).contains_key(x) implies rows_map(new)[x] == rows_map(
        rows,
    ).remove(k)[x] by {
        let j = lemma_key_in_rows(new, x);
        lemma_row_in_map(rows, if j < i { j } else { j + 1 });
        lemma_row_in_map(new, j);
    }
    assert(rows_map(new) =~= rows_map(rows).remove(k));
}

impl<K: Key, V> View for Table<K, V> {
    type V = Map<K, V>;

    closed spec fn view(&self) -> Map<K, V> {
        rows_map(self.rows@)
    }
}

impl<K: Key, V> Table<K, V> {
    #[verifier::type_invariant]
    spec fn well_formed(self) -> bool {
        keys_distinct(self.rows@)
    }

    /// The table without entries.
    pub fn new() -> (t: Table<K, V>)
        ensures
            t@ == Map::<K, V>::empty(),
    {
        let t = Table { rows: Vec::new() };
        proof {
            assert(t@ =~= Map::<K, V>::empty());
        }
        t
    }

    /// The position of the row of `k`, if there is one.
    fn find(rows: &Vec<(K, V)>, k: &K) -> (r: Option<usize>)
        ensures
            match r {
                Some(i) => row_has_key(rows@, i as int, *k),
                None => forall|i: int| 0 <= i < rows@.len() ==> (#[trigger] rows@[i]).0 != *k,
            },
    {
        let mut i: usize = 0;
        while i < rows.len()
            invariant
                i <= rows@.len(),
                forall|j: int| 0 <= j < i ==> (#[trigger] rows@[j]).0 != *k,
            decreases rows@.len() - i,
        {
            if rows[i].0.same(k) {
                return Some(i);
            }
            i = i + 1;
        }
        None
    }

    /// The entry under `k`, if there is one.
    pub fn get(&self, k: &K) -> (r: Option<&V>)
        ensures
            match r {
                Some(v) => self@.contains_key(*k) && self@[*k] == *v,
                None => !self@.contains_key(*k),
            },
    {
        proof {
            use_type_invariant(self);
        }
        match Self::find(&self.rows, k) {
            Some(i) => {
                proof {
                    lemma_row_in_map(self.rows@, i as int);
                }
                Some(&self.rows[i].1)
            },
            None => {
                proof {
                    if self@.contains_key(*k) {
                        let i = lemma_key_in_rows(self.rows@, *k);
                    }
                }
                None
            },
        }
    }

    /// Puts `v` under `k`, in place of the entry that was there.
    pub fn set(&mut self, k: K, v: V)
        ensures
            final(self)@ == old(self)@.insert(k, v),
    {
        proof {
            use_type_invariant(&*self);
        }
        let ghost before = self.rows@;
        let mut rows: Vec<(K, V)> = Vec::new();
        std::mem::swap(&mut rows, &mut self.rows);
        match Self::find(&rows, &k) {
            Some(i) => {
                proof {
                    lemma_update(before, i as int, k, v);
                }
                rows.set(i, (k, v));
            },
            None => {
                proof {
                    lemma_push(before, k, v);
                }
                rows.push((k, v));
            },
        }
        self.rows = rows;
    }

    /// Takes the entry under `k` out of the table and hands it back.
    pub fn take(&mut self, k: &K) -> (r: Option<V>)
        ensures
            final(self)@ == old(self)@.remove(*k),
            match r {
                Some(v) => old(self)@.contains_key(*k) && old(self)@[*k] == v,
                None => !old(self)@.contains_key(*k),
            },
    {
        proof {
            use_type_invariant(&*self);
        }
        let ghost before = self.rows@;
        let mut rows: Vec<(K, V)> = Vec::new();
        std::mem::swap(&mut rows, &mut self.rows);
        match Self::find(&rows, k) {
            Some(i) => {
                proof {
                    lemma_remove(before, i as int, *k);
                    lemma_row_in_map(before, i as int);
                }
                let row = rows.remove(i);
                self.rows = rows;
                Some(row.1)
            },
            None => {
                proof {
                    if rows_map(before).contains_key(*k) {
                        let i = lemma_key_in_rows(before, *k);
                    }
                    assert(rows_map(before).remove(*k) =~= rows_map(before));
                }
                self.rows = rows;
                None
            },
        }
    }
}

impl<K: Key, V: Copy> Table<K, V> {
    /// A second table with the same entries.
    pub fn copy(&self) -> (t: Table<K, V>)
        ensures
            t@ == self@,
    {
        proof {
            use_type_invariant(self);
        }
        let mut rows: Vec<(K, V)> = Vec::new();
        let mut i: usize = 0;
        while i < self.rows.len()
            invariant
                i <= self.rows@.len(),
                rows@ == self.rows@.take(i as int),
            decreases self.rows@.len() - i,
        {
            let row = self.rows[i];
            rows.push(row);
            i = i + 1;
            proof {
                assert(rows@ =~= self.rows@.take(i as int));
            }
        }
        proof {
            assert(rows@ =~= self.rows@);
        }
        Table { rows }
    }
}

/// `m` with every entry replaced by its mathematical value.
pub open spec fn views<K, T: View>(m: Map<K, T>) -> Map<K, T::V> {
    Map::new(|k: K| m.contains_key(k), |k: K| m[k]@)
}

/// Writing an entry writes its mathematical value.
pub proof fn lemma_views_insert<K, T: View>(m: Map<K, T>, k: K, t: T)
    ensures
        views(m.insert(k, t)) == views(m).insert(k, t@),
{
    assert(views(m.insert(k, t)) =~= views(m).insert(k, t@));
}

} // verus!
