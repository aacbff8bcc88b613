//! A bounded cache of precomputed resampling weight tables, keyed by the resize geometry.
//!
//! When a new geometry arrives at a full cache, one cached geometry makes room for it.
use vstd::prelude::*;

verus! {

/// The geometry that a weight table was computed for.
#[derive(Debug, Clone, Copy, PartialEq, Eq, Hash, Structural)]
pub struct WeightKey {
    pub src_size: usize,
    pub dst_size: usize,
    pub kernel_radius: u32,
    /// The scale factor quantised to 1/1024.
    pub scale_factor_bits: u32,
}

/// No key occurs twice among the entries.
pub open spec fn keys_distinct<V>(entries: Seq<(WeightKey, V)>) -> bool {
    forall|i: int, j: int|
        0 <= i < entries.len() && 0 <= j < entries.len() && i != j ==> #[trigger] entries[i].0
            != #[trigger] entries[j].0
}

/// The map that a list of entries describes (a later entry for a key overrides an earlier one).
pub open spec fn entries_map<V>(entries: Seq<(WeightKey, V)>) -> Map<WeightKey, V>
    decreases entries.len(),
{
    if entries.len() == 0 {
        Map::empty()
    } else {
        entries_map(entries.drop_last()).insert(entries.last().0, entries.last().1)
    }
}

proof fn lemma_entries_map<V>(entries: Seq<(WeightKey, V)>)
    requires
        keys_distinct(entries),
    ensures
        forall|i: int|
            0 <= i < entries.len() ==> entries_map(entries).contains_key(#[trigger] entries[i].0)
                && entries_map(entries)[entries[i].0] == entries[i].1,
        forall|k: WeightKey|
            #[trigger] entries_map(entries).contains_key(k) ==> exists|i: int|
                0 <= i < entries.len() && entries[i].0 == k,
        entries_map(entries).dom().finite(),
        entries_map(entries).len() == entries.len(),
    decreases entries.len(),
{
    if entries.len() > 0 {
        let init = entries.drop_last();
        assert(keys_distinct(init));
        lemma_entries_map(init);
        let last = entries.last();
        assert forall|i: int| 0 <= i < init.len() implies init[i].0 != last.0 by {
            assert(entries[i].0 != entries[entries.len() - 1].0);
        }
        assert(!entries_map(init).contains_key(last.0)) by {
            if entries_map(init).contains_key(last.0) {
                let i = choose|i: int| 0 <= i < init.len() && init[i].0 == last.0;
                assert(init[i].0 != last.0);
            }
        }
        assert forall|i: int| 0 <= i < entries.len() implies entries_map(entries).contains_key(
            #[trigger] entries[i].0,
        ) && entries_map(entries)[entries[i].0] == entries[i].1 by {
            if i < entries.len() - 1 {
                assert(entries[i] == init[i]);
            }
        }
        assert forall|k: WeightKey| #[trigger]
            entries_map(entries).contains_key(k) implies exists|i: int|
            0 <= i < entries.len() && entries[i].0 == k by {
            if k == last.0 {
                assert(entries[entries.len() - 1].0 == k);
            } else {
                let i = choose|i: int| 0 <= i < init.len() && init[i].0 == k;
                assert(entries[i] == init[i]);
            }
        }
    }
}

/// Two distinct-key lists that hold the same pairs, position by position up to keys,
/// describe the same map when they agree on every key's value.
proof fn lemma_entries_map_ext<V>(a: Seq<(WeightKey, V)>, b: Seq<(WeightKey, V)>, m: Map<WeightKey, V>)
    requires
        keys_distinct(b),
        m.dom().finite(),
        forall|i: int| 0 <= i < b.len() ==> m.contains_key(#[trigger] b[i].0) && m[b[i].0] == b[i].1,
        forall|k: WeightKey| #[trigger] m.contains_key(k) ==> exists|i: int| 0 <= i < b.len() && b[i].0 == k,
        a == b,
    ensures
        entries_map(a) == m,
{
    lemma_entries_map(b);
    assert forall|k: WeightKey| #[trigger] entries_map(b).contains_key(k) <==> m.contains_key(k) by {
        if entries_map(b).contains_key(k) {
            let i = choose|i: int| 0 <= i < b.len() && b[i].0 == k;
            assert(m.contains_key(b[i].0));
        }
        if m.contains_key(k) {
            let i = choose|i: int| 0 <= i < b.len() && b[i].0 == k;
            assert(entries_map(b).contains_key(b[i].0));
        }
    }
    assert forall|k: WeightKey| #[trigger] entries_map(b).contains_key(k) implies entries_map(b)[k]
        == m[k] by {
        let i = choose|i: int| 0 <= i < b.len() && b[i].0 == k;
        assert(entries_map(b)[b[i].0] == b[i].1);
    }
    assert(entries_map(b) =~= m);
}

/// A cache of at most `max(max_size, 1)` weight tables.
pub struct WeightCache<V> {
    entries: Vec<(WeightKey, V)>,
    max_size: usize,
}

impl<V> View for WeightCache<V> {
    type V = Map<WeightKey, V>;

    closed spec fn view(&self) -> Map<WeightKey, V> {
        entries_map(self.entries@)
    }
}

impl<V> WeightCache<V> {
    #[verifier::type_invariant]
    spec fn entries_ok(self) -> bool {
        &&& keys_distinct(self.entries@)
        &&& self.entries@.len() <= if self.max_size == 0 {
            1
        } else {
            self.max_size as int
        }
    }

    /// The largest number of tables held at once.
    pub closed spec fn capacity(&self) -> nat {
        if self.max_size == 0 {
            1
        } else {
            self.max_size as nat
        }
    }

    /// An empty cache that holds up to `max_size` tables (one, if `max_size` is zero).
    pub fn new(max_size: usize) -> (r: WeightCache<V>)
        ensures
            r@ == Map::<WeightKey, V>::empty(),
            r.capacity() == (if max_size == 0 {
                1
            } else {
                max_size as nat
            }),
    {
        let r = WeightCache { entries: Vec::new(), max_size };
        proof {
            assert(r.entries@ =~= Seq::<(WeightKey, V)>::empty());
        }
        r
    }

    /// The number of cached tables.
    pub fn len(&self) -> (r: usize)
        ensures
            self@.dom().finite(),
            r == self@.len(),
            r <= self.capacity(),
    {
        proof {
            use_type_invariant(self);
            lemma_entries_map(self.entries@);
        }
        self.entries.len()
    }

    /// The table cached for `key`, if any.
    pub fn get(&self, key: &WeightKey) -> (r: Option<&V>)
        ensures
            r is Some <==> self@.contains_key(*key),
            r matches Some(v) ==> *v == self@[*key],
    {
        proof {
            use_type_invariant(self);
            lemma_entries_map(self.entries@);
        }
        match self.find_index(key) {
            Some(i) => {
                proof {
                    assert(self.entries@[i as int].0 == *key);
                }
                Some(&self.entries[i].1)
            },
            None => {
                proof {
                    if self@.contains_key(*key) {
                        let j = choose|j: int|
                            0 <= j < self.entries@.len() && self.entries@[j].0 == *key;
                        assert(self.entries@[j].0 != *key);
                    }
                }
                None
            },
        }
    }

    /// The position of `key` among the entries, if it is there.
    fn find_index(&self, key: &WeightKey) -> (r: Option<usize>)
        ensures
            r matches Some(i) ==> i < self.entries@.len() && self.entries@[i as int].0 == *key,
            r is None ==> forall|j: int| 0 <= j < self.entries@.len() ==> self.entries@[j].0 != *key,
    {
        let n = self.entries.len();
        for i in 0..n
            invariant
                n == self.entries@.len(),
                forall|j: int| 0 <= j < i ==> self.entries@[j].0 != *key,
        {
            if self.entries[i].0 == *key {
                return Some(i);
            }
        }
        None
    }

    /// Caches `value` for `key`. A key already present has its table replaced. A new key
    /// arriving at a full cache first evicts one cached key (the oldest one here; which key
    /// leaves is not part of the promise).
    pub fn insert(&mut self, key: WeightKey, value: V)
        ensures
            final(self).capacity() == old(self).capacity(),
            final(self)@.contains_key(key),
            final(self)@[key] == value,
            final(self)@.dom().finite(),
            final(self)@.len() <= final(self).capacity(),
            old(self)@.contains_key(key) ==> final(self)@ == old(self)@.insert(key, value),
            !old(self)@.contains_key(key) && old(self)@.len() < old(self).capacity() ==> final(self)@
                == old(self)@.insert(key, value),
            !old(self)@.contains_key(key) && old(self)@.len() >= old(self).capacity() ==> exists|
                evicted: WeightKey,
            |
                old(self)@.contains_key(evicted) && final(self)@ == old(self)@.remove(evicted).insert(
                    key,
                    value,
                ),
    {
        proof {
            use_type_invariant(&*self);
            lemma_entries_map(self.entries@);
        }
        let ghost old_entries = self.entries@;
        let ghost old_map = entries_map(old_entries);
        let n = self.entries.len();
        let found = self.find_index(&key);
        proof {
            if found is None && old_map.contains_key(key) {
                let j = choose|j: int| 0 <= j < old_entries.len() && old_entries[j].0 == key;
                assert(old_entries[j].0 != key);
            }
        }
        let limit = if self.max_size == 0 {
            1
        } else {
            self.max_size
        };
        match found {
            Some(i) => {
                let ghost new_entries = old_entries.update(i as int, (key, value));
                let mut entries: Vec<(WeightKey, V)> = Vec::new();
                std::mem::swap(&mut entries, &mut self.entries);
                entries.set(i, (key, value));
                proof {
                    assert(entries@ == new_entries);
                    let m = old_map.insert(key, value);
                    assert(keys_distinct(new_entries)) by {
                        assert forall|a: int, b: int|
                            0 <= a < new_entries.len() && 0 <= b < new_entries.len() && a != b
                                implies #[trigger] new_entries[a].0 != #[trigger] new_entries[b].0 by {
                            assert(old_entries[a].0 != old_entries[b].0);
                        }
                    }
                    assert forall|j: int| 0 <= j < new_entries.len() implies m.contains_key(
                        #[trigger] new_entries[j].0,
                    ) && m[new_entries[j].0] == new_entries[j].1 by {
                        if j != i {
                            assert(old_entries[j].0 != old_entries[i as int].0);
                        }
                    }
                    assert forall|k: WeightKey| #[trigger] m.contains_key(k) implies exists|j: int|
                        0 <= j < new_entries.len() && new_entries[j].0 == k by {
                        if k == key {
                            assert(new_entries[i as int].0 == k);
                        } else {
                            let j = choose|j: int| 0 <= j < old_entries.len() && old_entries[j].0 == k;
                            assert(new_entries[j].0 == k);
                        }
                    }
                    lemma_entries_map_ext(new_entries, new_entries, m);
                    lemma_entries_map(new_entries);
                }
                self.entries = entries;
            },
            None => {
                let mut entries: Vec<(WeightKey, V)> = Vec::new();
                std::mem::swap(&mut entries, &mut self.entries);
                if n >= limit && n > 0 {
                    let ghost evicted = old_entries[0].0;
                    let _ = entries.remove(0);
                    proof {
                        let rest = old_entries.subrange(1, old_entries.len() as int);
                        assert(entries@ == rest);
                        let m = old_map.remove(evicted);
                        assert(keys_distinct(rest)) by {
                            assert forall|a: int, b: int|
                                0 <= a < rest.len() && 0 <= b < rest.len() && a != b
                                    implies #[trigger] rest[a].0 != #[trigger] rest[b].0 by {
                                assert(old_entries[a + 1].0 != old_entries[b + 1].0);
                            }
                        }
                        assert forall|j: int| 0 <= j < rest.len() implies m.contains_key(
                            #[trigger] rest[j].0,
                        ) && m[rest[j].0] == rest[j].1 by {
                            assert(rest[j] == old_entries[j + 1]);
                            assert(old_entries[j + 1].0 != old_entries[0].0);
                        }
                        assert forall|k: WeightKey| #[trigger] m.contains_key(k) implies exists|j: int|
                            0 <= j < rest.len() && rest[j].0 == k by {
                            let j = choose|j: int|
                                0 <= j < old_entries.len() && old_entries[j].0 == k;
                            assert(j != 0);
                            assert(rest[j - 1].0 == k);
                        }
                        lemma_entries_map_ext(rest, rest, m);
                        assert(entries_map(entries@) == old_map.remove(evicted));
                        assert(old_map.contains_key(evicted));
                        assert(!entries_map(entries@).contains_key(key));
                    }
                }
                let ghost before = entries@;
                proof {
                    lemma_entries_map(before);
                    assert(!entries_map(before).contains_key(key));
                }
                entries.push((key, value));
                proof {
                    assert(entries@.drop_last() == before);
                    assert(keys_distinct(entries@)) by {
                        assert forall|a: int, b: int|
                            0 <= a < entries@.len() && 0 <= b < entries@.len() && a != b
                                implies #[trigger] entries@[a].0 != #[trigger] entries@[b].0 by {
                            if a < before.len() && b < before.len() {
                                assert(entries@[a] == before[a]);
                                assert(entries@[b] == before[b]);
                            } else if a < before.len() {
                                assert(entries@[a] == before[a]);
                                assert(entries_map(before).contains_key(before[a].0));
                            } else {
                                assert(entries@[b] == before[b]);
                                assert(entries_map(before).contains_key(before[b].0));
                            }
                        }
                    }
                    lemma_entries_map(entries@);
                }
                self.entries = entries;
            },
        }
    }
}

} // verus!
