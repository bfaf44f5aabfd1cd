//! A small association container from `u32` ids to values, with at most one
//! entry per id. Entries keep their insertion order, which the dispatch scan
//! of the event matcher relies on being stable.

use vstd::prelude::*;

verus! {

/// An id-to-value container with unique ids and stable order.
pub struct IdMap<V> {
    entries: Vec<(u32, V)>,
}

impl<V> IdMap<V> {
    /// The entries in order.
    pub closed spec fn entries_seq(self) -> Seq<(u32, V)> {
        self.entries@
    }

    /// At most one entry per id.
    pub open spec fn wf(self) -> bool {
        forall|i: int, j: int|
            0 <= i < j < self.entries_seq().len() ==> (#[trigger] self.entries_seq()[i]).0 != (
            #[trigger] self.entries_seq()[j]).0
    }

    /// Whether some entry has the id `k`.
    pub open spec fn has_id(self, k: u32) -> bool {
        exists|i: int| 0 <= i < self.entries_seq().len() && (#[trigger] self.entries_seq()[i]).0 == k
    }

    /// Index of the entry with id `k`.
    pub open spec fn id_index(self, k: u32) -> int {
        choose|i: int| 0 <= i < self.entries_seq().len() && (#[trigger] self.entries_seq()[i]).0 == k
    }

    /// The contents as a mathematical map.
    pub open spec fn as_map(self) -> Map<u32, V> {
        Map::new(|k: u32| self.has_id(k), |k: u32| self.entries_seq()[self.id_index(k)].1)
    }

    /// With unique ids, any entry with id `k` gives the map's value at `k`.
    pub proof fn lemma_entry_is_value(self, i: int)
        requires
            self.wf(),
            0 <= i < self.entries_seq().len(),
        ensures
            self.as_map().contains_key(self.entries_seq()[i].0),
            self.as_map()[self.entries_seq()[i].0] == self.entries_seq()[i].1,
    {
        let k = self.entries_seq()[i].0;
        assert(self.has_id(k));
        let w = self.id_index(k);
        assert(0 <= w < self.entries_seq().len() && self.entries_seq()[w].0 == k);
        if w != i {
            if w < i {
                assert(self.entries_seq()[w].0 != self.entries_seq()[i].0);
            } else {
                assert(self.entries_seq()[i].0 != self.entries_seq()[w].0);
            }
        }
    }

    /// An empty container.
    pub fn new() -> (r: IdMap<V>)
        ensures
            r.wf(),
            r.as_map() == Map::<u32, V>::empty(),
            r.entries_seq().len() == 0,
    {
        let r = IdMap::<V> { entries: Vec::new() };
        proof {
            assert(r.as_map() =~= Map::<u32, V>::empty());
        }
        r
    }

    /// Number of entries.
    pub fn entry_count(&self) -> (r: usize)
        ensures
            r == self.entries_seq().len(),
    {
        self.entries.len()
    }

    /// The entry at position `i` of the stored order.
    pub fn entry_at(&self, i: usize) -> (r: &(u32, V))
        requires
            i < self.entries_seq().len(),
        ensures
            *r == self.entries_seq()[i as int],
    {
        &self.entries[i]
    }

    /// Position of the entry with id `id`, if any.
    fn find_index(&self, id: u32) -> (r: Option<usize>)
        ensures
            (match r {
                Some(i) => i < self.entries_seq().len() && self.entries_seq()[i as int].0 == id,
                None => !self.has_id(id),
            }),
    {
        let n = self.entries.len();
        let mut i: usize = 0;
        while i < n
            invariant
                n == self.entries_seq().len(),
                i <= n,
                forall|k: int| 0 <= k < i ==> (#[trigger] self.entries_seq()[k]).0 != id,
            decreases n - i,
        {
            if self.entries[i].0 == id {
                return Some(i);
            }
            i = i + 1;
        }
        None
    }

    /// Whether an entry with id `id` is present.
    pub fn contains(&self, id: u32) -> (r: bool)
        ensures
            r == self.as_map().contains_key(id),
    {
        match self.find_index(id) {
            Some(_) => true,
            None => false,
        }
    }

    /// The value stored for `id`, if any.
    pub fn get(&self, id: u32) -> (r: Option<&V>)
        requires
            self.wf(),
        ensures
            (match r {
                Some(v) => self.as_map().contains_key(id) && *v == self.as_map()[id],
                None => !self.as_map().contains_key(id),
            }),
    {
        match self.find_index(id) {
            Some(i) => {
                proof {
                    self.lemma_entry_is_value(i as int);
                }
                Some(&self.entries[i].1)
            },
            None => None,
        }
    }

    /// Remove the entry with id `id`, handing its value back; removing an
    /// absent id changes nothing.
    pub fn take(&mut self, id: u32) -> (prior: Option<V>)
        requires
            old(self).wf(),
        ensures
            final(self).wf(),
            final(self).as_map() == old(self).as_map().remove(id),
            !final(self).has_id(id),
            (match prior {
                Some(v) => old(self).as_map().contains_key(id) && v == old(self).as_map()[id],
                None => !old(self).as_map().contains_key(id) && *final(self) == *old(self),
            }),
    {
        match self.find_index(id) {
            Some(i) => {
                proof {
                    self.lemma_entry_is_value(i as int);
                }
                let ghost before = *self;
                let pair = self.entries.remove(i);
                proof {
                    lemma_take_shape(before, *self, id, i as int);
                }
                Some(pair.1)
            },
            None => {
                proof {
                    assert(self.as_map() =~= self.as_map().remove(id));
                }
                None
            },
        }
    }

    /// Store `v` for `id`, handing back the value the id held before, if
    /// any; the new entry goes to the end of the stored order.
    pub fn put(&mut self, id: u32, v: V) -> (prior: Option<V>)
        requires
            old(self).wf(),
        ensures
            final(self).wf(),
            final(self).as_map() == old(self).as_map().insert(id, v),
            (match prior {
                Some(p) => old(self).as_map().contains_key(id) && p == old(self).as_map()[id],
                None => !old(self).as_map().contains_key(id),
            }),
    {
        let prior = self.take(id);
        let ghost mid = *self;
        self.entries.push((id, v));
        proof {
            lemma_put_shape(mid, *self, id, v);
            assert(self.as_map() =~= old(self).as_map().insert(id, v));
        }
        prior
    }

    /// Empty the container, handing the entries back in their stored order.
    pub fn take_all(&mut self) -> (drained: Vec<(u32, V)>)
        requires
            old(self).wf(),
        ensures
            final(self).wf(),
            final(self).as_map() == Map::<u32, V>::empty(),
            final(self).entries_seq().len() == 0,
            drained@ == old(self).entries_seq(),
    {
        let mut out: Vec<(u32, V)> = Vec::new();
        core::mem::swap(&mut out, &mut self.entries);
        proof {
            assert(self.as_map() =~= Map::<u32, V>::empty());
        }
        out
    }
}

/// Removing the entry at the position of `id` removes exactly `id` from the
/// contents.
proof fn lemma_take_shape<V>(before: IdMap<V>, after: IdMap<V>, id: u32, i: int)
    requires
        before.wf(),
        0 <= i < before.entries_seq().len(),
        before.entries_seq()[i].0 == id,
        after.entries_seq() == before.entries_seq().remove(i),
    ensures
        after.wf(),
        after.as_map() == before.as_map().remove(id),
        !after.has_id(id),
{
    let bs = before.entries_seq();
    let asq = after.entries_seq();
    assert(forall|k: int| 0 <= k < i ==> asq[k] == bs[k]);
    assert(forall|k: int| i <= k < asq.len() ==> asq[k] == bs[k + 1]);
    assert forall|k: u32| after.has_id(k) implies before.has_id(k) && k != id by {
        let w = choose|w: int| 0 <= w < asq.len() && (#[trigger] asq[w]).0 == k;
        if w < i {
            assert(bs[w].0 == k);
            if k == id {
                assert(bs[w].0 != bs[i].0);
            }
        } else {
            assert(bs[w + 1].0 == k);
            if k == id {
                assert(bs[i].0 != bs[w + 1].0);
            }
        }
    }
    assert forall|k: u32| before.has_id(k) && k != id implies after.has_id(k) by {
        let w = choose|w: int| 0 <= w < bs.len() && (#[trigger] bs[w]).0 == k;
        if w < i {
            assert(asq[w].0 == k);
        } else {
            assert(w != i);
            assert(asq[w - 1].0 == k);
        }
    }
    assert forall|k: u32| #[trigger] after.as_map().contains_key(k) implies
        before.as_map().contains_key(k) && after.as_map()[k] == before.as_map()[k] by {
        let w = after.id_index(k);
        assert(0 <= w < asq.len() && asq[w].0 == k);
        if w < i {
            before.lemma_entry_is_value(w);
        } else {
            before.lemma_entry_is_value(w + 1);
        }
        after.lemma_entry_is_value(w);
    }
    assert(after.as_map() =~= before.as_map().remove(id));
}

/// Appending an entry for an id not present adds exactly that association.
proof fn lemma_put_shape<V>(before: IdMap<V>, after: IdMap<V>, id: u32, v: V)
    requires
        before.wf(),
        !before.has_id(id),
        after.entries_seq() == before.entries_seq().push((id, v)),
    ensures
        after.wf(),
        after.as_map() == before.as_map().insert(id, v),
{
    let bs = before.entries_seq();
    let asq = after.entries_seq();
    assert(forall|k: int| 0 <= k < bs.len() ==> asq[k] == bs[k]);
    assert(asq[bs.len() as int] == (id, v));
    assert forall|i: int, j: int| 0 <= i < j < asq.len() implies asq[i].0 != asq[j].0 by {
        if j == bs.len() {
            assert(bs[i].0 == asq[i].0);
            if asq[i].0 == id {
                assert(before.has_id(id));
            }
        }
    }
    assert forall|k: u32| #[trigger] after.has_id(k) implies before.has_id(k) || k == id by {
        let w = choose|w: int| 0 <= w < asq.len() && (#[trigger] asq[w]).0 == k;
        if w < bs.len() {
            assert(bs[w].0 == k);
        }
    }
    assert forall|k: u32| #[trigger] after.as_map().contains_key(k) implies after.as_map()[k]
        == before.as_map().insert(id, v)[k] by {
        let w = after.id_index(k);
        assert(0 <= w < asq.len() && asq[w].0 == k);
        after.lemma_entry_is_value(w);
        if k == id {
            if w < bs.len() {
                assert(before.has_id(id));
            }
            assert(asq[w].1 == v);
        } else {
            assert(w < bs.len());
            assert(bs[w].0 == k);
            before.lemma_entry_is_value(w);
        }
    }
    assert forall|k: u32| before.has_id(k) || k == id implies after.has_id(k) by {
        if k == id {
            assert(asq[bs.len() as int].0 == id);
        } else {
            let w = choose|w: int| 0 <= w < bs.len() && (#[trigger] bs[w]).0 == k;
            assert(asq[w].0 == k);
        }
    }
    assert(after.as_map() =~= before.as_map().insert(id, v));
}

} // verus!
