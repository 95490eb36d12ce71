//! Rows under text keys, which keep the order in which their keys came.

use vstd::hash_map::StringHashMap;
use vstd::prelude::*;

verus! {

/// A map from text to rows. Its positions, from 0 to its length, run through
/// the keys in the order in which they were first inserted.
#[verifier::reject_recursive_types(V)]
pub struct Table<V> {
    keys: Vec<String>,
    rows: Vec<V>,
    positions: StringHashMap<usize>,
}

impl<V> View for Table<V> {
    type V = Map<Seq<char>, V>;

    closed spec fn view(&self) -> Map<Seq<char>, V> {
        Map::new(
            |k: Seq<char>| self.positions@.contains_key(k),
            |k: Seq<char>| self.rows@[self.positions@[k] as int],
        )
    }
}

impl<V> Table<V> {
    /// The keys in the order of their positions.
    pub closed spec fn key_order(&self) -> Seq<Seq<char>> {
        Seq::new(self.keys@.len(), |i: int| self.keys@[i]@)
    }

    pub closed spec fn wf(&self) -> bool {
        &&& self.keys@.len() == self.rows@.len()
        &&& forall|i: int|
            0 <= i < self.keys@.len() ==> self.positions@.contains_key(#[trigger] self.keys@[i]@)
                && self.positions@[self.keys@[i]@] == i
        &&& forall|k: Seq<char>| #[trigger]
            self.positions@.contains_key(k) ==> self.positions@[k] < self.keys@.len()
                && self.keys@[self.positions@[k] as int]@ == k
    }

    /// The positions run through the keys of the map, each once.
    pub proof fn lemma_key_order(&self)
        requires
            self.wf(),
        ensures
            forall|i: int|
                0 <= i < self.key_order().len() ==> self@.contains_key(
                    #[trigger] self.key_order()[i],
                ),
            forall|i: int, j: int|
                0 <= i < j < self.key_order().len() ==> self.key_order()[i]
                    != self.key_order()[j],
            forall|k: Seq<char>| #[trigger]
                self@.contains_key(k) ==> exists|i: int|
                    0 <= i < self.key_order().len() && #[trigger] self.key_order()[i] == k,
            self@.dom().finite(),
    {
        assert forall|k: Seq<char>| #[trigger] self@.contains_key(k) implies exists|i: int|
            0 <= i < self.key_order().len() && #[trigger] self.key_order()[i] == k by {
            assert(self.key_order()[self.positions@[k] as int] == k);
        }
        assert(self@.dom() =~= self.key_order().to_set());
    }

    pub fn new() -> (t: Self)
        ensures
            t.wf(),
            t@ == Map::<Seq<char>, V>::empty(),
            t.key_order() == Seq::<Seq<char>>::empty(),
    {
        let t = Table { keys: Vec::new(), rows: Vec::new(), positions: StringHashMap::new() };
        assert(t@ =~= Map::<Seq<char>, V>::empty());
        t
    }

    pub fn len(&self) -> (n: usize)
        ensures
            n == self.key_order().len(),
    {
        self.keys.len()
    }

    /// The row at a position.
    pub fn row(&self, i: usize) -> (r: &V)
        requires
            self.wf(),
            i < self.key_order().len(),
        ensures
            *r == self@[self.key_order()[i as int]],
    {
        assert(self.positions@.contains_key(self.keys@[i as int]@));
        &self.rows[i]
    }

    pub fn contains_key(&self, key: &str) -> (b: bool)
        ensures
            b == self@.contains_key(key@),
    {
        self.positions.contains_key(key)
    }

    pub fn get(&self, key: &str) -> (r: Option<&V>)
        requires
            self.wf(),
        ensures
            match r {
                Some(v) => self@.contains_key(key@) && *v == self@[key@],
                None => !self@.contains_key(key@),
            },
    {
        match self.positions.get(key) {
            Some(i) => Some(&self.rows[*i]),
            None => None,
        }
    }

    /// Puts `row` under `key`, in place of the row that was there, if any.
    pub fn insert(&mut self, key: String, row: V)
        requires
            old(self).wf(),
        ensures
            final(self).wf(),
            final(self)@ == old(self)@.insert(key@, row),
            final(self).key_order() == if old(self)@.contains_key(key@) {
                old(self).key_order()
            } else {
                old(self).key_order().push(key@)
            },
    {
        let ghost before = *self;
        match self.positions.get(key.as_str()) {
            Some(i) => {
                let i: usize = *i;
                self.rows.set(i, row);
            },
            None => {
                let n: usize = self.keys.len();
                self.keys.push(key.clone());
                self.rows.push(row);
                self.positions.insert(key, n);
            },
        }
        assert(self@ =~= before@.insert(key@, row));
    }
}

} // verus!
