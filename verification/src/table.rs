//! A small map from text keys to values, kept as a list of slots in which no
//! key occurs twice. It backs the tenant directory, the tier registry and the
//! limiter state, whose contracts all speak of its `map()`.
//!
//! vstd specifies `HashMap` only for keys that obey its key model, and it
//! does not say of `String` that it does. A list of slots needs no such
//! assumption: what a lookup finds is proved here.
use vstd::prelude::*;

verus! {

/// One key with the value stored under it.
struct Slot<V> {
    key: String,
    value: V,
}

/// A finite map keyed by text.
pub struct KeyedTable<V> {
    slots: Vec<Slot<V>>,
}

/// No key occurs twice.
spec fn distinct_keys(keys: Seq<Seq<char>>) -> bool {
    forall|i: int, j: int| 0 <= i < j < keys.len() ==> keys[i] != keys[j]
}

/// The keys of a list of slots, in storage order.
spec fn keys_of<V>(slots: Seq<Slot<V>>) -> Seq<Seq<char>> {
    Seq::new(slots.len(), |i: int| slots[i].key@)
}

/// The map that a list of slots stands for.
spec fn map_of<V>(slots: Seq<Slot<V>>) -> Map<Seq<char>, V> {
    Map::new(
        |k: Seq<char>| keys_of(slots).contains(k),
        |k: Seq<char>| slots[keys_of(slots).index_of(k)].value,
    )
}

proof fn lemma_present<V>(slots: Seq<Slot<V>>, k: Seq<char>, j: int)
    requires
        distinct_keys(keys_of(slots)),
        0 <= j < slots.len(),
        slots[j].key@ == k,
    ensures
        map_of(slots).contains_key(k),
        map_of(slots)[k] == slots[j].value,
{
    assert(keys_of(slots)[j] == k);
    let i = keys_of(slots).index_of(k);
    assert(keys_of(slots)[i] == k);
    assert(i == j);
}

proof fn lemma_absent<V>(slots: Seq<Slot<V>>, k: Seq<char>)
    requires
        forall|j: int| 0 <= j < slots.len() ==> slots[j].key@ != k,
    ensures
        !map_of(slots).contains_key(k),
{
    if keys_of(slots).contains(k) {
        let i = keys_of(slots).index_of(k);
        assert(keys_of(slots)[i] == k);
    }
}

proof fn lemma_witness<V>(slots: Seq<Slot<V>>, k: Seq<char>) -> (j: int)
    requires
        map_of(slots).contains_key(k),
    ensures
        0 <= j < slots.len(),
        slots[j].key@ == k,
{
    let j = keys_of(slots).index_of(k);
    assert(keys_of(slots)[j] == k);
    j
}

impl<V> KeyedTable<V> {
    #[verifier::type_invariant]
    spec fn well_formed(&self) -> bool {
        distinct_keys(keys_of(self.slots@))
    }

    /// The map that the table stands for.
    pub closed spec fn map(&self) -> Map<Seq<char>, V> {
        map_of(self.slots@)
    }

    /// A table with no entries.
    pub fn new() -> (table: Self)
        ensures
            table.map() == Map::<Seq<char>, V>::empty(),
    {
        let table = KeyedTable { slots: Vec::new() };
        assert(table.map() =~= Map::<Seq<char>, V>::empty());
        table
    }

    /// Number of entries.
    pub fn len(&self) -> (n: usize)
        ensures
            self.map().dom().finite(),
            n == self.map().dom().len(),
    {
        proof {
            use_type_invariant(self);
            let keys = keys_of(self.slots@);
            assert(self.map().dom() =~= keys.to_set());
            keys.unique_seq_to_set();
        }
        self.slots.len()
    }

    /// Position of the slot that carries `key`, if there is one.
    fn position(&self, key: &String) -> (found: Option<usize>)
        ensures
            match found {
                Some(i) => i < self.slots@.len() && self.slots@[i as int].key@ == key@,
                None => forall|j: int| 0 <= j < self.slots@.len() ==> self.slots@[j].key@ != key@,
            },
    {
        let mut i: usize = 0;
        while i < self.slots.len()
            invariant
                i <= self.slots@.len(),
                forall|j: int| 0 <= j < i ==> self.slots@[j].key@ != key@,
            decreases self.slots@.len() - i,
        {
            if self.slots[i].key.eq(key) {
                return Some(i);
            }
            i += 1;
        }
        None
    }

    /// The value stored under `key`.
    pub fn get(&self, key: &str) -> (found: Option<&V>)
        ensures
            match found {
                Some(v) => self.map().contains_key(key@) && *v == self.map()[key@],
                None => !self.map().contains_key(key@),
            },
    {
        let owned = String::from_str(key);
        match self.position(&owned) {
            Some(i) => {
                proof {
                    use_type_invariant(self);
                    lemma_present(self.slots@, key@, i as int);
                }
                Some(&self.slots[i].value)
            },
            None => {
                proof {
                    lemma_absent(self.slots@, key@);
                }
                None
            },
        }
    }

    /// Whether a value is stored under `key`.
    pub fn contains(&self, key: &str) -> (present: bool)
        ensures
            present == self.map().contains_key(key@),
    {
        self.get(key).is_some()
    }

    /// Stores `value` under `key`, in place of what was stored there before.
    pub fn insert(&mut self, key: String, value: V)
        ensures
            final(self).map() == old(self).map().insert(key@, value),
    {
        proof {
            use_type_invariant(&*self);
        }
        let ghost before = self.slots@;
        let found = self.position(&key);
        let mut slots: Vec<Slot<V>> = Vec::new();
        std::mem::swap(&mut self.slots, &mut slots);
        match found {
            Some(i) => {
                slots.set(i, Slot { key, value });
            },
            None => {
                slots.push(Slot { key, value });
            },
        }
        proof {
            let after = slots@;
            let at = if found is Some { found.unwrap() as int } else { before.len() as int };
            assert(after[at].key@ == key@ && after[at].value == value);
            assert forall|j: int| 0 <= j < before.len() && j != at implies after[j] == before[j] by {}
            assert forall|i: int, j: int| 0 <= i < j < after.len() implies keys_of(after)[i]
                != keys_of(after)[j] by {
                if i != at && j != at {
                    assert(keys_of(before)[i] != keys_of(before)[j]);
                } else if found is Some {
                    assert(keys_of(before)[i] != keys_of(before)[j]);
                }
            }
            let goal = map_of(before).insert(key@, value);
            assert forall|k: Seq<char>| #[trigger]
                map_of(after).contains_key(k) == goal.contains_key(k) && (goal.contains_key(k)
                    ==> map_of(after)[k] == goal[k]) by {
                if k == key@ {
                    lemma_present(after, k, at);
                } else if map_of(before).contains_key(k) {
                    let j = lemma_witness(before, k);
                    lemma_present(before, k, j);
                    lemma_present(after, k, j);
                } else if map_of(after).contains_key(k) {
                    let j = lemma_witness(after, k);
                    lemma_present(before, k, j);
                }
            }
            assert(map_of(after) =~= goal);
        }
        std::mem::swap(&mut self.slots, &mut slots);
    }

    /// Takes out what is stored under `key`, if anything is.
    pub fn remove(&mut self, key: &str) -> (taken: Option<V>)
        ensures
            final(self).map() == old(self).map().remove(key@),
            match taken {
                Some(v) => old(self).map().contains_key(key@) && v == old(self).map()[key@],
                None => !old(self).map().contains_key(key@),
            },
    {
        proof {
            use_type_invariant(&*self);
        }
        let ghost before = self.slots@;
        let owned = String::from_str(key);
        match self.position(&owned) {
            Some(i) => {
                let mut slots: Vec<Slot<V>> = Vec::new();
                std::mem::swap(&mut self.slots, &mut slots);
                let slot = slots.remove(i);
                proof {
                    let after = slots@;
                    lemma_present(before, key@, i as int);
                    assert forall|a: int, b: int| 0 <= a < b < after.len() implies keys_of(
                        after,
                    )[a] != keys_of(after)[b] by {
                        let x = if a < i { a } else { a + 1 };
                        let y = if b < i { b } else { b + 1 };
                        assert(keys_of(before)[x] != keys_of(before)[y]);
                    }
                    let goal = map_of(before).remove(key@);
                    assert forall|k: Seq<char>| #[trigger]
                        map_of(after).contains_key(k) == goal.contains_key(k) && (
                        goal.contains_key(k) ==> map_of(after)[k] == goal[k]) by {
                        if map_of(after).contains_key(k) {
                            let j = lemma_witness(after, k);
                            let x = if j < i { j } else { j + 1 };
                            assert(keys_of(before)[x] == k);
                            assert(keys_of(before)[i as int] == key@);
                            lemma_present(before, k, x);
                            lemma_present(after, k, j);
                        } else if goal.contains_key(k) {
                            let x = lemma_witness(before, k);
                            let j = if x < i { x } else { x - 1 };
                            lemma_present(after, k, j);
                        }
                    }
                    assert(map_of(after) =~= goal);
                }
                std::mem::swap(&mut self.slots, &mut slots);
                Some(slot.value)
            },
            None => {
                proof {
                    lemma_absent(before, key@);
                    assert(map_of(before) =~= map_of(before).remove(key@));
                }
                None
            },
        }
    }

    /// Drops every entry.
    pub fn clear(&mut self)
        ensures
            final(self).map() == Map::<Seq<char>, V>::empty(),
    {
        let mut slots: Vec<Slot<V>> = Vec::new();
        std::mem::swap(&mut self.slots, &mut slots);
        assert(self.map() =~= Map::<Seq<char>, V>::empty());
    }
}

} // verus!
