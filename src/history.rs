use crate::store::{index_add, index_drop, OwnedItem, OwnedStore};
use std::collections::HashMap;
use vstd::prelude::*;

verus! {

broadcast use vstd::std_specs::hash::group_hash_axioms;

/// The history after `id` is appended to `h` under a cap of `cap`: when the
/// new length exceeds the cap, the oldest id leaves.
pub open spec fn pushed(h: Seq<u64>, id: u64, cap: nat) -> Seq<u64> {
    if h.len() + 1 > cap {
        h.push(id).drop_first()
    } else {
        h.push(id)
    }
}

/// The id that an append of `id` to `h` under a cap of `cap` evicts, if any.
pub open spec fn evicted(h: Seq<u64>, id: u64, cap: nat) -> Option<u64> {
    if h.len() + 1 > cap {
        Some(h.push(id)[0])
    } else {
        None
    }
}

/// The history of an owner, empty where it has none yet.
pub open spec fn history_of(order: Map<u64, Seq<u64>>, owner: u64) -> Seq<u64> {
    if order.contains_key(owner) {
        order[owner]
    } else {
        Seq::empty()
    }
}

/// The history that a run of appends of new ids yields from an empty one.
pub open spec fn replay(ids: Seq<u64>, cap: nat) -> Seq<u64>
    decreases ids.len(),
{
    if ids.len() == 0 {
        Seq::empty()
    } else {
        pushed(replay(ids.drop_last(), cap), ids.last(), cap)
    }
}

/// Takes `id` out of a list that holds each id once.
fn remove_id(v: &mut Vec<u64>, id: u64)
    requires
        old(v)@.no_duplicates(),
    ensures
        final(v)@.no_duplicates(),
        final(v)@.to_set() == old(v)@.to_set().remove(id),
        !old(v)@.contains(id) ==> final(v)@ == old(v)@,
{
    let mut i: usize = 0;
    while i < v.len()
        invariant
            i <= v.len(),
            v@ == old(v)@,
            v@.no_duplicates(),
            forall|j: int| 0 <= j < i ==> v@[j] != id,
        decreases v.len() - i,
    {
        if v[i] == id {
            let ghost before = v@;
            v.remove(i);
            proof {
                assert(before == old(v)@);
                assert(before.no_duplicates());
                assert(v@ == before.remove(i as int));
                assert(before[i as int] == id);
                assert forall|x: u64| v@.contains(x) <==> before.contains(x) && x != id by {
                    if before.contains(x) && x != id {
                        let k = choose|k: int| 0 <= k < before.len() && before[k] == x;
                        if k < i {
                            assert(v@[k] == x);
                        } else {
                            assert(k != i);
                            assert(v@[k - 1] == x);
                        }
                    }
                    if v@.contains(x) {
                        let k = choose|k: int| 0 <= k < v@.len() && v@[k] == x;
                        let k2 = if k < i { k } else { k + 1 };
                        assert(before[k2] == x);
                        assert(k2 != i);
                        assert(before[k2] != before[i as int]);
                    }
                }
                assert(v@.to_set() =~= before.to_set().remove(id));
                assert forall|a: int, b: int| 0 <= a < b < v@.len() implies v@[a] != v@[b] by {
                    let a2 = if a < i { a } else { a + 1 };
                    let b2 = if b < i { b } else { b + 1 };
                    assert(v@[a] == before[a2]);
                    assert(v@[b] == before[b2]);
                    assert(before[a2] != before[b2]);
                }
            }
            return;
        }
        i = i + 1;
    }
    assert(!v@.contains(id));
    assert(v@.to_set() =~= v@.to_set().remove(id));
}

/// A store of owned records whose owners each keep an ordered history of
/// their ids, oldest first, bounded at insertion time.
pub struct BoundedStore<T> {
    store: OwnedStore<T>,
    order: HashMap<u64, Vec<u64>>,
}

impl<T> BoundedStore<T> {
    /// The records, by id.
    pub closed spec fn items(self) -> Map<u64, OwnedItem<T>> {
        self.store.items()
    }

    /// The relationship index: for each owner, the ids it owns.
    pub closed spec fn index(self) -> Map<u64, Set<u64>> {
        self.store.index()
    }

    /// For each owner, its ids in the order they were inserted.
    pub closed spec fn order(self) -> Map<u64, Seq<u64>> {
        Map::new(|o: u64| self.order@.contains_key(o), |o: u64| self.order@[o]@)
    }

    pub open spec fn wf(self) -> bool {
        &&& crate::store::consistent(self.items(), self.index())
        &&& forall|o: u64| #[trigger] self.order().contains_key(o) <==> self.index().contains_key(o)
        &&& forall|o: u64| #[trigger] self.order().contains_key(o) ==> {
            &&& self.order()[o].to_set() == self.index()[o]
            &&& self.order()[o].no_duplicates()
        }
    }

    /// An empty store.
    pub fn new() -> (r: Self)
        ensures
            r.wf(),
            r.items() == Map::<u64, OwnedItem<T>>::empty(),
            r.index() == Map::<u64, Set<u64>>::empty(),
            r.order() == Map::<u64, Seq<u64>>::empty(),
    {
        let r = BoundedStore { store: OwnedStore::new(), order: HashMap::new() };
        assert(r.order() =~= Map::<u64, Seq<u64>>::empty());
        r
    }

    /// The record stored under `id`, if any.
    pub fn get(&self, id: u64) -> (r: Option<&OwnedItem<T>>)
        ensures
            r is Some <==> self.items().contains_key(id),
            r matches Some(v) ==> *v == self.items()[id],
    {
        self.store.get(id)
    }

    /// How many records are stored.
    pub fn len(&self) -> (r: usize)
        ensures
            r == self.items().len(),
    {
        self.store.len()
    }

    /// The ids of `owner`, oldest first, if it has a history.
    pub fn history(&self, owner: u64) -> (r: Option<Vec<u64>>)
        ensures
            r is Some <==> self.order().contains_key(owner),
            r matches Some(v) ==> v@ == self.order()[owner],
    {
        match self.order.get(&owner) {
            Some(v) => Some(v.clone()),
            None => None,
        }
    }

    /// Stores `data` under `id`. A record already stored under `id` takes the
    /// new data and keeps its owner and place in the history. A new id is
    /// appended to the history of `owner`; when that history then holds more
    /// than `cap` ids, its oldest id leaves the history, the index and the
    /// store.
    pub fn insert(&mut self, owner: u64, id: u64, data: T, cap: usize)
        requires
            old(self).wf(),
        ensures
            final(self).wf(),
            old(self).items().contains_key(id) ==> {
                &&& final(self).items() == old(self).items().insert(
                    id,
                    OwnedItem { data, owner: old(self).items()[id].owner },
                )
                &&& final(self).index() == old(self).index()
                &&& final(self).order() == old(self).order()
            },
            !old(self).items().contains_key(id) ==> {
                let h = history_of(old(self).order(), owner);
                let added = old(self).items().insert(id, OwnedItem { data, owner: owner });
                &&& final(self).order() == old(self).order().insert(owner, pushed(h, id, cap as nat))
                &&& match evicted(h, id, cap as nat) {
                    Some(e) => {
                        &&& final(self).items() == added.remove(e)
                        &&& final(self).index() == index_drop(
                            index_add(old(self).index(), owner, id),
                            owner,
                            e,
                        )
                    },
                    None => {
                        &&& final(self).items() == added
                        &&& final(self).index() == index_add(old(self).index(), owner, id)
                    },
                }
            },
    {
        match self.store.get(id) {
            Some(prev) => {
                let p = prev.owner;
                self.store.upsert(p, id, data);
                assert(self.index() =~~= old(self).index());
                return;
            },
            None => {},
        }
        let ghost h = history_of(old(self).order(), owner);
        let mut hist = match self.order.remove(&owner) {
            Some(v) => v,
            None => Vec::new(),
        };
        assert(hist@ == h);
        proof {
            if h.contains(id) {
                assert(old(self).order().contains_key(owner));
                assert(h.to_set().contains(id));
                assert(old(self).index().contains_key(owner));
                assert(old(self).index()[owner].contains(id));
            }
            h.lemma_push_to_set_commute(id);
            if !old(self).order().contains_key(owner) {
                assert(h.to_set() =~= Set::empty());
            }
        }
        self.store.upsert(owner, id, data);
        let ghost mid = self.index();
        hist.push(id);
        assert(hist@.to_set() =~= mid[owner]);
        assert(hist@.no_duplicates()) by {
            assert(hist@ == h.push(id));
            assert(old(self).order().contains_key(owner) ==> h.no_duplicates());
        }
        if hist.len() > cap {
            let ghost before = hist@;
            let e = hist.remove(0);
            assert(mid[owner].contains(e));
            self.store.remove(owner, e);
            assert(hist@ =~= h.push(id).drop_first());
            assert(hist@ =~= before.drop_first());
            assert forall|x: u64| hist@.contains(x) <==> before.contains(x) && x != e by {
                if before.contains(x) && x != e {
                    let k = choose|k: int| 0 <= k < before.len() && before[k] == x;
                    assert(hist@[k - 1] == x);
                }
                if hist@.contains(x) {
                    let k = choose|k: int| 0 <= k < hist@.len() && hist@[k] == x;
                    assert(before[k + 1] == x);
                }
            }
            assert(hist@.to_set() =~= mid[owner].remove(e));
            assert(hist@.no_duplicates()) by {
                assert forall|a: int, b: int| 0 <= a < b < hist@.len() implies hist@[a] != hist@[b] by {
                    assert(before[a + 1] != before[b + 1]);
                }
            }
        }
        self.order.insert(owner, hist);
        assert(self.index().contains_key(owner));
        assert(self.order()[owner].to_set() == self.index()[owner]);
        assert(self.order() =~~= old(self).order().insert(owner, pushed(h, id, cap as nat)));
    }

    /// Removes the record of `id` when it is stored under `owner`, from the
    /// store, the index and the owner's history, wherever it stands in it.
    pub fn remove(&mut self, owner: u64, id: u64) -> (r: Option<OwnedItem<T>>)
        requires
            old(self).wf(),
        ensures
            final(self).wf(),
            if old(self).items().contains_key(id) && old(self).items()[id].owner == owner {
                &&& r == Some(old(self).items()[id])
                &&& final(self).items() == old(self).items().remove(id)
                &&& final(self).index() == index_drop(old(self).index(), owner, id)
                &&& final(self).order().remove(owner) == old(self).order().remove(owner)
                &&& final(self).order().contains_key(owner)
                &&& final(self).order()[owner].to_set() == old(self).order()[owner].to_set().remove(id)
            } else {
                &&& r is None
                &&& final(self).items() == old(self).items()
                &&& final(self).index() == old(self).index()
                &&& final(self).order() == old(self).order()
            },
    {
        let r = self.store.remove(owner, id);
        if r.is_some() {
            assert(old(self).index().contains_key(owner));
            assert(old(self).order().contains_key(owner));
            assert(self.order@.contains_key(owner));
            if let Some(mut hist) = self.order.remove(&owner) {
                remove_id(&mut hist, id);
                self.order.insert(owner, hist);
            }
            assert(self.order().remove(owner) =~~= old(self).order().remove(owner));
            assert(self.order().contains_key(owner));
            assert(self.index().contains_key(owner));
            assert(self.order()[owner].to_set() == self.index()[owner]);
            assert forall|o: u64| #[trigger] self.order().contains_key(o) <==> self.index().contains_key(o) by {
                if o != owner {
                    assert(self.order().remove(owner).contains_key(o) == self.order().contains_key(o));
                    assert(old(self).order().remove(owner).contains_key(o) == old(self).order().contains_key(o));
                }
            }
            assert forall|o: u64| #[trigger] self.order().contains_key(o) implies {
                &&& self.order()[o].to_set() == self.index()[o]
                &&& self.order()[o].no_duplicates()
            } by {
                if o != owner {
                    assert(self.order().remove(owner).contains_key(o));
                    assert(self.order()[o] == self.order().remove(owner)[o]);
                    assert(old(self).order().contains_key(o));
                    assert(old(self).order()[o] == old(self).order().remove(owner)[o]);
                }
            }
            assert(self.wf());
        } else {
            assert(self.order() == old(self).order());
            assert(self.index() == old(self).index());
            assert(self.wf());
        }
        r
    }

    /// Cascading owner deletion: the owner leaves the index and the history
    /// map, and every id it owned leaves the store.
    pub fn remove_owner(&mut self, owner: u64)
        requires
            old(self).wf(),
        ensures
            final(self).wf(),
            final(self).index() == old(self).index().remove(owner),
            final(self).order() == old(self).order().remove(owner),
            old(self).index().contains_key(owner) ==> final(self).items()
                == old(self).items().remove_keys(old(self).index()[owner]),
            !old(self).index().contains_key(owner) ==> final(self).items() == old(self).items(),
    {
        self.store.remove_owner(owner);
        self.order.remove(&owner);
        assert(self.order() =~~= old(self).order().remove(owner));
    }
}

} // verus!
