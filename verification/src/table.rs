//! A small keyed table: the in-memory image of the ledger rows of one kind.
use vstd::prelude::*;

verus! {

/// Keys of a [`Table`]: plain values that can be told apart at run time.
pub trait TableKey: Copy {
    /// Whether the two keys are the same value.
    fn same(&self, other: &Self) -> (r: bool)
        ensures
            r == (*self == *other),
    ;
}

impl TableKey for u64 {
    fn same(&self, other: &Self) -> (r: bool) {
        *self == *other
    }
}

/// The mapping that a list of rows stands for. Of two rows with one key the
/// later one counts.
pub open spec fn rows_view<K, V: View>(rows: Seq<(K, V)>) -> Map<K, V::V>
    decreases rows.len(),
{
    if rows.len() == 0 {
        Map::empty()
    } else {
        rows_view(rows.drop_last()).insert(rows.last().0, rows.last().1@)
    }
}

/// Rows keyed by `K`. A row is never removed, only written over.
#[derive(Clone, Debug)]
pub struct Table<K, V> {
    rows: Vec<(K, V)>,
}

impl<K, V: View> View for Table<K, V> {
    type V = Map<K, V::V>;

    closed spec fn view(&self) -> Map<K, V::V> {
        rows_view(self.rows@)
    }
}

/// A key that is not among the rows from `i` on is looked up in the rows before `i`.
proof fn lemma_lookup_before<K, V: View>(rows: Seq<(K, V)>, i: int, key: K)
    requires
        0 <= i <= rows.len(),
        forall|j: int| i <= j < rows.len() ==> (#[trigger] rows[j]).0 != key,
    ensures
        rows_view(rows).contains_key(key) == rows_view(rows.take(i)).contains_key(key),
        rows_view(rows)[key] == rows_view(rows.take(i))[key],
    decreases rows.len(),
{
    if i == rows.len() {
        assert(rows.take(i) =~= rows);
    } else {
        let init = rows.drop_last();
        assert forall|j: int| i <= j < init.len() implies (#[trigger] init[j]).0 != key by {
            assert(init[j] == rows[j]);
        }
        lemma_lookup_before(init, i, key);
        assert(init.take(i) =~= rows.take(i));
        assert(rows[rows.len() - 1].0 != key);
    }
}

/// Writing over the last row that holds a key changes the mapping at that key alone.
proof fn lemma_overwrite<K, V: View>(rows: Seq<(K, V)>, i: int, key: K, value: V)
    requires
        0 <= i < rows.len(),
        rows[i].0 == key,
        forall|j: int| i < j < rows.len() ==> (#[trigger] rows[j]).0 != key,
    ensures
        rows_view(rows.update(i, (key, value))) == rows_view(rows).insert(key, value@),
    decreases rows.len(),
{
    let init = rows.drop_last();
    let new_rows = rows.update(i, (key, value));
    if i == rows.len() - 1 {
        assert(new_rows.drop_last() =~= init);
        assert(rows_view(new_rows) =~= rows_view(rows).insert(key, value@));
    } else {
        assert(init[i] == rows[i]);
        assert forall|j: int| i < j < init.len() implies (#[trigger] init[j]).0 != key by {
            assert(init[j] == rows[j]);
        }
        lemma_overwrite(init, i, key, value);
        assert(new_rows.drop_last() =~= init.update(i, (key, value)));
        assert(rows[rows.len() - 1].0 != key);
        assert(rows_view(new_rows) =~= rows_view(rows).insert(key, value@));
    }
}

impl<K: TableKey, V: View> Table<K, V> {
    /// A table without rows.
    pub fn new() -> (r: Self)
        ensures
            r@ == Map::<K, V::V>::empty(),
    {
        Table { rows: Vec::new() }
    }

    /// Position of the row that counts for `key`.
    fn position(&self, key: K) -> (r: Option<usize>)
        ensures
            match r {
                Some(i) => {
                    &&& i < self.rows@.len()
                    &&& self.rows@[i as int].0 == key
                    &&& forall|j: int| i < j < self.rows@.len() ==> (#[trigger] self.rows@[j]).0 != key
                },
                None => forall|j: int| 0 <= j < self.rows@.len() ==> (#[trigger] self.rows@[j]).0 != key,
            },
    {
        let mut i: usize = self.rows.len();
        while i > 0
            invariant
                i <= self.rows@.len(),
                forall|j: int| i <= j < self.rows@.len() ==> (#[trigger] self.rows@[j]).0 != key,
            decreases i,
        {
            i = i - 1;
            if self.rows[i].0.same(&key) {
                return Some(i);
            }
        }
        None
    }

    /// The row stored under `key`, if there is one.
    pub fn get(&self, key: K) -> (r: Option<&V>)
        ensures
            match r {
                Some(v) => self@.contains_key(key) && v@ == self@[key],
                None => !self@.contains_key(key),
            },
    {
        match self.position(key) {
            Some(i) => {
                proof {
                    let head = self.rows@.take(i + 1);
                    lemma_lookup_before(self.rows@, i + 1, key);
                    assert(head.last() == self.rows@[i as int]);
                }
                Some(&self.rows[i].1)
            },
            None => {
                proof {
                    lemma_lookup_before(self.rows@, 0, key);
                }
                None
            },
        }
    }

    /// Stores `value` under `key`.
    pub fn set(&mut self, key: K, value: V)
        ensures
            final(self)@ == old(self)@.insert(key, value@),
    {
        match self.position(key) {
            Some(i) => {
                proof {
                    lemma_overwrite(self.rows@, i as int, key, value);
                }
                self.rows.set(i, (key, value));
            },
            None => {
                let ghost before = self.rows@;
                self.rows.push((key, value));
                proof {
                    assert(self.rows@.drop_last() =~= before);
                }
            },
        }
    }
}

} // verus!
