//! A table keyed by device id: the map that the sync engine and the
//! output manager keep per device. Ids are unique; the table's model is
//! a finite `Map` from the id's text to the value.

use vstd::prelude::*;
use crate::core_types::DeviceId;

verus! {

/// Per-device values, keyed by unique device ids.
pub struct DeviceTable<V> {
    ids: Vec<DeviceId>,
    vals: Vec<V>,
}

impl<V> DeviceTable<V> {
    /// The ids' texts, in table order.
    pub closed spec fn keys(&self) -> Seq<Seq<char>> {
        self.ids@.map_values(|d: DeviceId| d@)
    }

    /// The values, in table order.
    pub closed spec fn values(&self) -> Seq<V> {
        self.vals@
    }

    /// Ids and values line up and no id occurs twice.
    pub closed spec fn wf(&self) -> bool {
        &&& self.ids@.len() == self.vals@.len()
        &&& self.keys().no_duplicates()
    }

    /// Number of entries.
    pub closed spec fn size(&self) -> nat {
        self.ids@.len()
    }
}

impl<V> View for DeviceTable<V> {
    type V = Map<Seq<char>, V>;

    closed spec fn view(&self) -> Map<Seq<char>, V> {
        Map::new(
            |k: Seq<char>| self.keys().contains(k),
            |k: Seq<char>| self.vals@[self.keys().index_of(k)],
        )
    }
}

impl<V> DeviceTable<V> {
    /// The entry at index `i` is in the map with its value.
    pub proof fn lemma_index(&self, i: int)
        requires
            self.wf(),
            0 <= i < self.size(),
        ensures
            self.keys().len() == self.size(),
            self.values().len() == self.size(),
            self@.contains_key(self.keys()[i]),
            self@[self.keys()[i]] == self.values()[i],
    {
        let k = self.keys()[i];
        assert(self.keys().contains(k));
        let j = self.keys().index_of(k);
        assert(0 <= j < self.keys().len() && self.keys()[j] == k);
        assert(j == i);
    }

    /// Distinct indices hold distinct ids.
    pub proof fn lemma_keys_distinct(&self, i: int, j: int)
        requires
            self.wf(),
            0 <= i < self.size(),
            0 <= j < self.size(),
            i != j,
        ensures
            self.keys()[i] != self.keys()[j],
    {
    }

    /// Ids and values have the table's length.
    pub proof fn lemma_lens(&self)
        requires
            self.wf(),
        ensures
            self.keys().len() == self.size(),
            self.values().len() == self.size(),
    {
    }

    /// The map's keys are exactly the table's ids, and it has as many
    /// entries as the table.
    pub proof fn lemma_dom(&self)
        requires
            self.wf(),
        ensures
            self.keys().len() == self.size(),
            self.values().len() == self.size(),
            self@.dom() == self.keys().to_set(),
            self@.dom().finite(),
            self@.dom().len() == self.size(),
            forall|k: Seq<char>| #[trigger] self@.contains_key(k) ==> exists|i: int|
                0 <= i < self.size() && self.keys()[i] == k,
    {
        assert(self@.dom() =~= self.keys().to_set());
        self.keys().unique_seq_to_set();
        vstd::seq_lib::seq_to_set_is_finite(self.keys());
    }

    /// An empty table.
    pub fn new() -> (r: Self)
        ensures
            r.wf(),
            r@ == Map::<Seq<char>, V>::empty(),
            r.size() == 0,
    {
        let r = DeviceTable { ids: Vec::new(), vals: Vec::new() };
        assert(r@ =~= Map::<Seq<char>, V>::empty());
        r
    }

    /// Number of entries.
    pub fn len(&self) -> (r: usize)
        requires
            self.wf(),
        ensures
            r == self.size(),
            r == self@.dom().len(),
    {
        proof {
            self.lemma_dom();
        }
        self.ids.len()
    }

    /// Index of the entry for `id`, if there is one.
    pub fn find(&self, id: &DeviceId) -> (r: Option<usize>)
        requires
            self.wf(),
        ensures
            r matches Some(i) ==> i < self.size() && self.keys()[i as int] == id@,
            r is None <==> !self@.contains_key(id@),
    {
        let n = self.ids.len();
        let mut i: usize = 0;
        while i < n
            invariant
                self.wf(),
                n == self.size(),
                i <= n,
                forall|j: int| 0 <= j < i ==> self.keys()[j] != id@,
            decreases n - i,
        {
            assert(self.keys()[i as int] == self.ids@[i as int]@);
            if self.ids[i].same_as(id) {
                assert(self.keys()[i as int] == id@);
                assert(self.keys().contains(id@));
                return Some(i);
            }
            i = i + 1;
        }
        proof {
            if self@.contains_key(id@) {
                let j = self.keys().index_of(id@);
                assert(self.keys()[j] == id@);
            }
        }
        None
    }

    /// The id at index `i`.
    pub fn key_at(&self, i: usize) -> (r: &DeviceId)
        requires
            self.wf(),
            i < self.size(),
        ensures
            r@ == self.keys()[i as int],
    {
        &self.ids[i]
    }

    /// The value at index `i`.
    pub fn value_at(&self, i: usize) -> (r: &V)
        requires
            self.wf(),
            i < self.size(),
        ensures
            *r == self.values()[i as int],
    {
        &self.vals[i]
    }

    /// Replaces the value at index `i`.
    pub fn set_value_at(&mut self, i: usize, v: V)
        requires
            old(self).wf(),
            i < old(self).size(),
        ensures
            final(self).wf(),
            final(self).size() == old(self).size(),
            final(self).values().len() == final(self).size(),
            final(self).keys() == old(self).keys(),
            final(self).values() == old(self).values().update(i as int, v),
            final(self)@ == old(self)@.insert(old(self).keys()[i as int], v),
    {
        let ghost pre = *self;
        self.vals.set(i, v);
        proof {
            assert(self.keys() =~= pre.keys());
            let k = pre.keys()[i as int];
            assert forall|kk: Seq<char>| #[trigger] self@.contains_key(kk) == pre@.insert(k, v).contains_key(kk) by {
                if kk == k {
                    assert(pre.keys().contains(kk));
                }
            }
            assert forall|kk: Seq<char>| self@.contains_key(kk) implies #[trigger] self@[kk] == pre@.insert(k, v)[kk] by {
                let j = self.keys().index_of(kk);
                assert(self.keys()[j] == kk);
                if kk == k {
                    assert(j == i);
                } else {
                    assert(j != i);
                    let j2 = pre.keys().index_of(kk);
                    assert(pre.keys()[j2] == kk);
                    assert(j == j2);
                }
            }
            assert(self@ =~= pre@.insert(k, v));
        }
    }

    /// Sets the value for `id`: replaces it when `id` is present, appends
    /// a new entry otherwise.
    pub fn insert(&mut self, id: DeviceId, v: V)
        requires
            old(self).wf(),
        ensures
            final(self).wf(),
            final(self)@ == old(self)@.insert(id@, v),
    {
        match self.find(&id) {
            Some(i) => {
                self.set_value_at(i, v);
            },
            None => {
                let ghost pre = *self;
                let ghost k = id@;
                self.ids.push(id);
                self.vals.push(v);
                proof {
                    assert(self.keys() =~= pre.keys().push(k));
                    assert(!pre.keys().contains(k)) by {
                        if pre.keys().contains(k) {
                            let j = pre.keys().index_of(k);
                            assert(pre@.contains_key(k));
                        }
                    }
                    assert forall|a: int, b: int|
                        0 <= a < self.keys().len() && 0 <= b < self.keys().len() && a != b
                        implies self.keys()[a] != self.keys()[b] by {
                        if a < pre.keys().len() && b < pre.keys().len() {
                        } else if a == pre.keys().len() {
                            assert(pre.keys()[b] != k) by {
                                if pre.keys()[b] == k { assert(pre.keys().contains(k)); }
                            }
                        } else {
                            assert(pre.keys()[a] != k) by {
                                if pre.keys()[a] == k { assert(pre.keys().contains(k)); }
                            }
                        }
                    }
                    assert forall|kk: Seq<char>| #[trigger] self@.contains_key(kk) == pre@.insert(k, v).contains_key(kk) by {
                        if self.keys().contains(kk) && kk != k {
                            let j = self.keys().index_of(kk);
                            assert(j < pre.keys().len());
                            assert(pre.keys()[j] == kk);
                        }
                        if pre.keys().contains(kk) {
                            let j = pre.keys().index_of(kk);
                            assert(self.keys()[j] == kk);
                        }
                        if kk == k {
                            assert(self.keys()[pre.keys().len() as int] == k);
                        }
                    }
                    assert forall|kk: Seq<char>| self@.contains_key(kk) implies #[trigger] self@[kk] == pre@.insert(k, v)[kk] by {
                        let j = self.keys().index_of(kk);
                        assert(self.keys()[j] == kk);
                        if kk == k {
                            assert(self.keys()[pre.keys().len() as int] == k);
                            assert(j == pre.keys().len());
                        } else {
                            assert(j < pre.keys().len());
                            let j2 = pre.keys().index_of(kk);
                            assert(pre.keys()[j] == kk);
                            assert(pre.keys()[j2] == kk);
                            assert(j == j2);
                        }
                    }
                    assert(self@ =~= pre@.insert(k, v));
                }
            },
        }
    }

    /// Removes the entry for `id`, if there is one.
    pub fn remove(&mut self, id: &DeviceId)
        requires
            old(self).wf(),
        ensures
            final(self).wf(),
            final(self)@ == old(self)@.remove(id@),
    {
        match self.find(id) {
            None => {
                assert(self@ =~= self@.remove(id@));
            },
            Some(i) => {
                let ghost pre = *self;
                let ghost k = id@;
                self.ids.remove(i);
                self.vals.remove(i);
                proof {
                    let ii = i as int;
                    assert(self.keys() =~= pre.keys().remove(ii));
                    pre.keys().remove_ensures(ii);
                    pre.vals@.remove_ensures(ii);
                    assert(self.vals@ =~= pre.vals@.remove(ii));
                    // index map between the two tables
                    assert forall|a: int, b: int|
                        0 <= a < self.keys().len() && 0 <= b < self.keys().len() && a != b
                        implies self.keys()[a] != self.keys()[b] by {
                        let a2 = if a < ii { a } else { a + 1 };
                        let b2 = if b < ii { b } else { b + 1 };
                        assert(self.keys()[a] == pre.keys()[a2]);
                        assert(self.keys()[b] == pre.keys()[b2]);
                    }
                    assert forall|kk: Seq<char>| #[trigger] self@.contains_key(kk) == pre@.remove(k).contains_key(kk) by {
                        if self.keys().contains(kk) {
                            let a = self.keys().index_of(kk);
                            let a2 = if a < ii { a } else { a + 1 };
                            assert(self.keys()[a] == pre.keys()[a2]);
                            assert(pre.keys().contains(kk));
                            assert(a2 != ii);
                        }
                        if pre.keys().contains(kk) && kk != k {
                            let a2 = pre.keys().index_of(kk);
                            assert(pre.keys()[a2] == kk);
                            assert(a2 != ii);
                            let a = if a2 < ii { a2 } else { a2 - 1 };
                            assert(self.keys()[a] == kk);
                        }
                        if kk == k && self.keys().contains(kk) {
                            let a = self.keys().index_of(kk);
                            let a2 = if a < ii { a } else { a + 1 };
                            assert(self.keys()[a] == pre.keys()[a2]);
                            assert(pre.keys()[ii] == k);
                        }
                    }
                    assert forall|kk: Seq<char>| self@.contains_key(kk) implies #[trigger] self@[kk] == pre@.remove(k)[kk] by {
                        let a = self.keys().index_of(kk);
                        assert(self.keys()[a] == kk);
                        let a2 = if a < ii { a } else { a + 1 };
                        assert(self.keys()[a] == pre.keys()[a2]);
                        let b2 = pre.keys().index_of(kk);
                        assert(pre.keys()[b2] == kk);
                        assert(a2 == b2);
                        assert(self.vals@[a] == pre.vals@[a2]);
                    }
                    assert(self@ =~= pre@.remove(k));
                }
            },
        }
    }

    /// Copies of all ids, in table order.
    pub fn ids(&self) -> (r: Vec<DeviceId>)
        requires
            self.wf(),
        ensures
            r@.len() == self.size(),
            forall|i: int| 0 <= i < r@.len() ==> #[trigger] r@[i]@ == self.keys()[i],
    {
        let n = self.ids.len();
        let mut out: Vec<DeviceId> = Vec::new();
        let mut i: usize = 0;
        while i < n
            invariant
                self.wf(),
                n == self.size(),
                i <= n,
                out@.len() == i,
                forall|j: int| 0 <= j < i ==> #[trigger] out@[j]@ == self.keys()[j],
            decreases n - i,
        {
            out.push(self.ids[i].to_owned_id());
            i = i + 1;
        }
        out
    }
}

} // verus!
