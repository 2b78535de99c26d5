//! A map keyed by strings that keeps its entries in ascending key order,
//! the order in which a `BTreeMap<String, V>` hands them out.

use vstd::prelude::*;
use crate::text::{
    lemma_seq_less_irreflexive, lemma_seq_less_total, lemma_seq_less_transitive, seq_less, str_eq,
    str_less,
};

verus! {

/// A string-keyed map whose entries are kept sorted by key.
pub struct StrMap<V> {
    entries: Vec<(String, V)>,
}

/// Keys strictly ascending: sorted, and no key occurs twice.
pub open spec fn strictly_ascending(keys: Seq<Seq<char>>) -> bool {
    forall|i: int, j: int| 0 <= i < j < keys.len() ==> seq_less(#[trigger] keys[i], #[trigger] keys[j])
}

/// Strictly ascending keys are pairwise different.
pub proof fn lemma_ascending_distinct(keys: Seq<Seq<char>>, i: int, j: int)
    requires
        strictly_ascending(keys),
        0 <= i < keys.len(),
        0 <= j < keys.len(),
        i != j,
    ensures
        keys[i] != keys[j],
{
    if i < j {
        lemma_seq_less_irreflexive(keys[i]);
    } else {
        lemma_seq_less_irreflexive(keys[j]);
    }
}

impl<V> StrMap<V> {
    /// The keys, in ascending order.
    pub closed spec fn keys(self) -> Seq<Seq<char>> {
        self.entries@.map_values(|e: (String, V)| e.0@)
    }

    /// The values, in the order of their keys.
    pub closed spec fn values(self) -> Seq<V> {
        self.entries@.map_values(|e: (String, V)| e.1)
    }

    /// The keys are kept strictly ascending.
    pub closed spec fn wf(self) -> bool {
        strictly_ascending(self.keys())
    }

    /// The position of key `k` among the keys.
    pub closed spec fn position(self, k: Seq<char>) -> int {
        choose|i: int| 0 <= i < self.keys().len() && self.keys()[i] == k
    }

    /// The map from each key to its value.
    pub closed spec fn as_map(self) -> Map<Seq<char>, V> {
        Map::new(|k: Seq<char>| self.keys().contains(k), |k: Seq<char>| self.values()[self.position(k)])
    }

    /// The listing and the map agree: the keys are strictly ascending, each
    /// key maps to the value at its position, and every key of the map is
    /// listed.
    pub proof fn lemma_listing(self)
        requires
            self.wf(),
        ensures
            strictly_ascending(self.keys()),
            self.keys().len() == self.values().len(),
            forall|i: int|
                0 <= i < self.keys().len() ==> #[trigger] self@.contains_key(self.keys()[i])
                    && self@[self.keys()[i]] == self.values()[i],
            forall|k: Seq<char>| #[trigger] self@.contains_key(k) ==> self.keys().contains(k),
            self@.dom().finite(),
            self@.len() == self.keys().len(),
    {
        self.lemma_position();
        self.lemma_len();
    }

    proof fn lemma_position(self)
        requires
            strictly_ascending(self.keys()),
        ensures
            forall|i: int|
                0 <= i < self.keys().len() ==> #[trigger] self.position(self.keys()[i]) == i,
            forall|i: int|
                0 <= i < self.keys().len() ==> #[trigger] self@.contains_key(self.keys()[i])
                    && self@[self.keys()[i]] == self.values()[i],
    {
        assert forall|i: int| 0 <= i < self.keys().len() implies #[trigger] self.position(
            self.keys()[i],
        ) == i by {
            let k = self.keys()[i];
            assert(self.keys()[i] == k);
            let p = self.position(k);
            if p != i {
                lemma_ascending_distinct(self.keys(), p, i);
            }
        }
        assert forall|i: int| 0 <= i < self.keys().len() implies #[trigger] self@.contains_key(
            self.keys()[i],
        ) && self@[self.keys()[i]] == self.values()[i] by {
            assert(self.position(self.keys()[i]) == i);
        }
    }

    proof fn lemma_len(self)
        requires
            strictly_ascending(self.keys()),
        ensures
            self@.dom().finite(),
            self@.len() == self.keys().len(),
    {
        let ks = self.keys();
        assert forall|i: int, j: int| 0 <= i < ks.len() && 0 <= j < ks.len() && i != j implies ks[i]
            != ks[j] by {
            lemma_ascending_distinct(ks, i, j);
        }
        ks.unique_seq_to_set();
        assert(self@.dom() =~= ks.to_set());
    }

    /// An empty map.
    pub fn new() -> (m: Self)
        ensures
            m.wf(),
            m@ == Map::<Seq<char>, V>::empty(),
            m.keys() == Seq::<Seq<char>>::empty(),
    {
        let m = StrMap { entries: Vec::new() };
        assert(m@ =~= Map::<Seq<char>, V>::empty());
        m
    }

    /// The number of entries.
    pub fn len(&self) -> (n: usize)
        requires
            self.wf(),
        ensures
            n == self.keys().len(),
            n == self@.len(),
    {
        proof { self.lemma_listing(); }
        self.entries.len()
    }

    /// The key at position `i` in ascending order.
    pub fn key_at(&self, i: usize) -> (k: &String)
        requires
            self.wf(),
            i < self.keys().len(),
        ensures
            k@ == self.keys()[i as int],
    {
        &self.entries[i].0
    }

    /// The value at position `i` in the order of the keys.
    pub fn value_at(&self, i: usize) -> (v: &V)
        requires
            self.wf(),
            i < self.keys().len(),
        ensures
            *v == self.values()[i as int],
    {
        &self.entries[i].1
    }

    /// The position at which `k` stands or would be inserted: every key
    /// before it is smaller than `k`, and the key there, if any, is not.
    fn find(&self, k: &str) -> (p: usize)
        requires
            self.wf(),
        ensures
            p <= self.keys().len(),
            forall|i: int| 0 <= i < p ==> seq_less(#[trigger] self.keys()[i], k@),
            p < self.keys().len() ==> !seq_less(self.keys()[p as int], k@),
    {
        let n = self.entries.len();
        let mut i: usize = 0;
        while i < n && str_less(self.entries[i].0.as_str(), k)
            invariant
                n == self.keys().len(),
                i <= n,
                forall|j: int| 0 <= j < i ==> seq_less(#[trigger] self.keys()[j], k@),
            decreases n - i,
        {
            i = i + 1;
        }
        i
    }

    /// The value stored for `k`, if any.
    pub fn get(&self, k: &str) -> (r: Option<&V>)
        requires
            self.wf(),
        ensures
            match r {
                Some(v) => self@.contains_key(k@) && *v == self@[k@],
                None => !self@.contains_key(k@),
            },
    {
        proof {
            self.lemma_position();
        }
        let p = self.find(k);
        if p < self.entries.len() && str_eq(self.entries[p].0.as_str(), k) {
            Some(&self.entries[p].1)
        } else {
            proof {
                if self.keys().contains(k@) {
                    let j = choose|j: int| 0 <= j < self.keys().len() && self.keys()[j] == k@;
                    if j < p {
                        lemma_seq_less_irreflexive(k@);
                    } else if j > p {
                        assert(seq_less(self.keys()[p as int], self.keys()[j]));
                        lemma_seq_less_total(self.keys()[p as int], k@);
                    }
                }
            }
            None
        }
    }

    /// Whether `k` has a value.
    pub fn contains_key(&self, k: &str) -> (b: bool)
        requires
            self.wf(),
        ensures
            b == self@.contains_key(k@),
    {
        self.get(k).is_some()
    }

    /// Stores `v` for `k`, replacing the value stored before, as
    /// `BTreeMap::insert` does.
    pub fn insert(&mut self, k: String, v: V)
        requires
            old(self).wf(),
        ensures
            final(self).wf(),
            final(self)@ == old(self)@.insert(k@, v),
            old(self)@.contains_key(k@) ==> final(self).keys() == old(self).keys(),
    {
        proof {
            self.lemma_position();
        }
        let ghost old_keys = self.keys();
        let ghost old_values = self.values();
        let ghost old_map = self@;
        let p = self.find(k.as_str());
        let replace = p < self.entries.len() && str_eq(self.entries[p].0.as_str(), k.as_str());
        let mut entries: Vec<(String, V)> = Vec::new();
        std::mem::swap(&mut entries, &mut self.entries);
        let ghost kv = k@;
        if replace {
            entries.remove(p);
            entries.insert(p, (k, v));
        } else {
            entries.insert(p, (k, v));
        }
        let ghost new_keys = entries@.map_values(|e: (String, V)| e.0@);
        let ghost new_values = entries@.map_values(|e: (String, V)| e.1);
        proof {
            if replace {
                assert(new_keys =~= old_keys.update(p as int, kv));
                assert(new_values =~= old_values.update(p as int, v));
                assert(strictly_ascending(new_keys)) by {
                    assert forall|i: int, j: int| 0 <= i < j < new_keys.len() implies seq_less(
                        #[trigger] new_keys[i],
                        #[trigger] new_keys[j],
                    ) by {
                        assert(old_keys[i] == new_keys[i] || i == p);
                        assert(old_keys[j] == new_keys[j] || j == p);
                    }
                }
            } else {
                assert(new_keys =~= old_keys.insert(p as int, kv));
                assert(new_values =~= old_values.insert(p as int, v));
                if p < old_keys.len() {
                    assert(old_keys[p as int] != kv);
                    lemma_seq_less_total(old_keys[p as int], kv);
                }
                assert(strictly_ascending(new_keys)) by {
                    assert forall|i: int, j: int| 0 <= i < j < new_keys.len() implies seq_less(
                        #[trigger] new_keys[i],
                        #[trigger] new_keys[j],
                    ) by {
                        if i < p && j == p {
                            assert(seq_less(old_keys[i], kv));
                        } else if i < p && j > p {
                            assert(seq_less(old_keys[i], kv));
                            assert(new_keys[j] == old_keys[j - 1]);
                            if j - 1 > p {
                                assert(seq_less(old_keys[p as int], old_keys[j - 1]));
                                lemma_seq_less_transitive(kv, old_keys[p as int], old_keys[j - 1]);
                            }
                            lemma_seq_less_transitive(old_keys[i], kv, old_keys[j - 1]);
                        } else if i == p && j > p {
                            assert(new_keys[j] == old_keys[j - 1]);
                            if j - 1 > p {
                                assert(seq_less(old_keys[p as int], old_keys[j - 1]));
                                lemma_seq_less_transitive(kv, old_keys[p as int], old_keys[j - 1]);
                            }
                        } else if i > p {
                            assert(new_keys[i] == old_keys[i - 1]);
                            assert(new_keys[j] == old_keys[j - 1]);
                        }
                    }
                }
            }
        }
        self.entries = entries;
        proof {
            assert(self.keys() == new_keys);
            if old_map.contains_key(kv) {
                let j = choose|j: int| 0 <= j < old_keys.len() && old_keys[j] == kv;
                if !replace {
                    if j < p {
                        lemma_seq_less_irreflexive(kv);
                    } else if j > p {
                        assert(seq_less(old_keys[p as int], old_keys[j]));
                        lemma_seq_less_total(old_keys[p as int], kv);
                    }
                }
                assert(new_keys =~= old_keys);
            }
            assert(self.values() == new_values);
            self.lemma_position();
            assert forall|q: Seq<char>| #[trigger] self@.contains_key(q) == old_map.insert(
                kv,
                v,
            ).contains_key(q) by {
                if q != kv {
                    if old_keys.contains(q) {
                        let j = choose|j: int| 0 <= j < old_keys.len() && old_keys[j] == q;
                        if replace {
                            assert(new_keys[j] == q);
                        } else if j < p {
                            assert(new_keys[j] == q);
                        } else {
                            assert(new_keys[j + 1] == q);
                        }
                    }
                    if new_keys.contains(q) {
                        let j = choose|j: int| 0 <= j < new_keys.len() && new_keys[j] == q;
                        if replace {
                            assert(old_keys[j] == q);
                        } else if j < p {
                            assert(old_keys[j] == q);
                        } else {
                            assert(old_keys[j - 1] == q);
                        }
                    }
                } else {
                    assert(new_keys[p as int] == kv);
                }
            }
            assert forall|q: Seq<char>| #[trigger] self@.contains_key(q) implies self@[q]
                == old_map.insert(kv, v)[q] by {
                if q == kv {
                    assert(new_keys[p as int] == kv);
                } else {
                    let j = choose|j: int| 0 <= j < old_keys.len() && old_keys[j] == q;
                    if replace || j < p {
                        assert(new_keys[j] == q);
                    } else {
                        assert(new_keys[j + 1] == q);
                    }
                }
            }
            assert(self@ =~= old_map.insert(kv, v));
        }
    }
}

impl<V> View for StrMap<V> {
    type V = Map<Seq<char>, V>;

    open spec fn view(&self) -> Map<Seq<char>, V> {
        self.as_map()
    }
}

} // verus!
