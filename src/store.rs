use std::collections::HashMap;
use std::collections::HashSet;
use vstd::prelude::*;
use vstd::std_specs::iter::IteratorSpec;

verus! {

broadcast use vstd::std_specs::hash::group_hash_axioms;

/// Lists the ids of a set, each once.
fn set_ids(s: &HashSet<u64>) -> (v: Vec<u64>)
    ensures
        v@.to_set() == s@,
        v@.no_duplicates(),
{
    let ghost all = s.iter().remaining();
    let mut v: Vec<u64> = Vec::new();
    for x in it: s.iter()
        invariant
            it.seq() == all,
            all.unref().to_set() == s@,
            all.unref().no_duplicates(),
            v@ == all.unref().take(it.index()),
    {
        assert(all.unref()[it.index()] == *x);
        v.push(*x);
        assert(v@ =~= all.unref().take(it.index() + 1));
    }
    assert(v@ =~= all.unref());
    v
}

/// Whether the id is in the list, by a scan.
fn list_contains(v: &Vec<u64>, id: u64) -> (r: bool)
    ensures
        r == v@.contains(id),
{
    let mut i: usize = 0;
    while i < v.len()
        invariant
            i <= v.len(),
            forall|j: int| 0 <= j < i ==> v@[j] != id,
        decreases v.len() - i,
    {
        if v[i] == id {
            return true;
        }
        i = i + 1;
    }
    false
}

/// A fresh copy of a set of ids.
fn copy_ids(s: &HashSet<u64>) -> (r: HashSet<u64>)
    ensures
        r@ == s@,
{
    let ids = set_ids(s);
    let mut r: HashSet<u64> = HashSet::new();
    let mut i: usize = 0;
    while i < ids.len()
        invariant
            i <= ids.len(),
            r@ == ids@.take(i as int).to_set(),
        decreases ids.len() - i,
    {
        r.insert(ids[i]);
        proof {
            assert(ids@.take(i + 1) == ids@.take(i as int).push(ids@[i as int]));
            ids@.take(i as int).lemma_push_to_set_commute(ids@[i as int]);
        }
        i = i + 1;
    }
    assert(ids@.take(ids.len() as int) == ids@);
    r
}

/// The ids of the list that `keep` does not list.
pub open spec fn stale_of(ids: Seq<u64>, keep: Seq<u64>) -> Set<u64> {
    ids.to_set().filter(|x: u64| !keep.contains(x))
}

/// The index once the set of `owner`, if it has one, is cut down to the
/// ids that `keep` lists.
pub open spec fn kept_index(idx: Map<u64, Set<u64>>, owner: u64, keep: Seq<u64>) -> Map<u64, Set<u64>> {
    if idx.contains_key(owner) {
        idx.insert(owner, idx[owner].filter(|x: u64| keep.contains(x)))
    } else {
        idx
    }
}

/// The records once the ids that `owner` owns and `keep` does not list are
/// gone.
pub open spec fn kept_items<T>(
    items: Map<u64, OwnedItem<T>>,
    idx: Map<u64, Set<u64>>,
    owner: u64,
    keep: Seq<u64>,
) -> Map<u64, OwnedItem<T>> {
    if idx.contains_key(owner) {
        items.remove_keys(idx[owner].filter(|x: u64| !keep.contains(x)))
    } else {
        items
    }
}

/// A record kept together with the id of the owner it belongs to.
#[derive(Clone, Debug)]
pub struct OwnedItem<T> {
    pub data: T,
    pub owner: u64,
}

/// The index after `id` joins the set of `owner`, which is created when
/// absent.
pub open spec fn index_add(idx: Map<u64, Set<u64>>, owner: u64, id: u64) -> Map<u64, Set<u64>> {
    if idx.contains_key(owner) {
        idx.insert(owner, idx[owner].insert(id))
    } else {
        idx.insert(owner, set![id])
    }
}

/// The index after `id` leaves the set of `owner`; the set itself stays.
pub open spec fn index_drop(idx: Map<u64, Set<u64>>, owner: u64, id: u64) -> Map<u64, Set<u64>> {
    if idx.contains_key(owner) {
        idx.insert(owner, idx[owner].remove(id))
    } else {
        idx
    }
}

/// The index as it stands once `id` is detached from the owner that
/// `items` records for it.
pub open spec fn detach<T>(items: Map<u64, OwnedItem<T>>, idx: Map<u64, Set<u64>>, id: u64) -> Map<u64, Set<u64>> {
    if items.contains_key(id) {
        index_drop(idx, items[id].owner, id)
    } else {
        idx
    }
}

/// The two structures agree: every indexed id is stored under that owner,
/// and every stored record is indexed under its owner.
pub open spec fn consistent<T>(items: Map<u64, OwnedItem<T>>, idx: Map<u64, Set<u64>>) -> bool {
    &&& forall|g: u64, x: u64|
        #[trigger] idx.contains_key(g) && #[trigger] idx[g].contains(x) ==> items.contains_key(x)
            && items[x].owner == g
    &&& forall|x: u64|
        #[trigger] items.contains_key(x) ==> idx.contains_key(items[x].owner)
            && idx[items[x].owner].contains(x)
}

/// An entity store of owned records, keyed by id, together with the
/// relationship index from each owner to the ids it owns.
pub struct OwnedStore<T> {
    items: HashMap<u64, OwnedItem<T>>,
    index: HashMap<u64, HashSet<u64>>,
}

impl<T> OwnedStore<T> {
    /// The stored records by id.
    pub closed spec fn items(self) -> Map<u64, OwnedItem<T>> {
        self.items@
    }

    /// The relationship index: for each owner, the ids it owns.
    pub closed spec fn index(self) -> Map<u64, Set<u64>> {
        Map::new(|g: u64| self.index@.contains_key(g), |g: u64| self.index@[g]@)
    }

    /// The index as it stands once `id` is detached from its current owner.
    pub open spec fn detached(self, id: u64) -> Map<u64, Set<u64>> {
        detach(self.items(), self.index(), id)
    }

    pub open spec fn wf(self) -> bool {
        consistent(self.items(), self.index())
    }

    /// An empty store.
    pub fn new() -> (r: Self)
        ensures
            r.wf(),
            r.items() == Map::<u64, OwnedItem<T>>::empty(),
            r.index() == Map::<u64, Set<u64>>::empty(),
    {
        let r = OwnedStore { items: HashMap::new(), index: HashMap::new() };
        assert(r.index() =~= Map::<u64, Set<u64>>::empty());
        r
    }

    /// The record stored under `id`, if any.
    pub fn get(&self, id: u64) -> (r: Option<&OwnedItem<T>>)
        ensures
            r is Some <==> self.items().contains_key(id),
            r matches Some(v) ==> *v == self.items()[id],
    {
        self.items.get(&id)
    }

    /// Whether a record is stored under `id`.
    pub fn contains(&self, id: u64) -> (r: bool)
        ensures
            r == self.items().contains_key(id),
    {
        self.items.contains_key(&id)
    }

    /// How many records are stored.
    pub fn len(&self) -> (r: usize)
        ensures
            r == self.items().len(),
    {
        self.items.len()
    }

    /// A copy of the ids that `owner` owns, if the index has an entry for it.
    pub fn ids_of(&self, owner: u64) -> (r: Option<HashSet<u64>>)
        ensures
            r is Some <==> self.index().contains_key(owner),
            r matches Some(s) ==> s@ == self.index()[owner],
    {
        match self.index.get(&owner) {
            Some(s) => Some(copy_ids(s)),
            None => None,
        }
    }

    /// Takes `id` out of the set of `owner`, leaving the set in place.
    fn index_remove(&mut self, owner: u64, id: u64)
        ensures
            final(self).items() == old(self).items(),
            final(self).index() == index_drop(old(self).index(), owner, id),
    {
        match self.index.remove(&owner) {
            Some(mut s) => {
                s.remove(&id);
                self.index.insert(owner, s);
            }
            None => {}
        }
        assert(self.index() =~~= index_drop(old(self).index(), owner, id));
    }

    /// Puts `id` into the set of `owner`, creating the set when absent.
    fn index_insert(&mut self, owner: u64, id: u64)
        ensures
            final(self).items() == old(self).items(),
            final(self).index() == index_add(old(self).index(), owner, id),
    {
        match self.index.remove(&owner) {
            Some(mut s) => {
                s.insert(id);
                self.index.insert(owner, s);
            }
            None => {
                let mut s: HashSet<u64> = HashSet::new();
                s.insert(id);
                self.index.insert(owner, s);
            }
        }
        assert(self.index() =~~= index_add(old(self).index(), owner, id));
    }

    /// Stores `data` under `id` for `owner`, replacing any earlier record of
    /// that id; the id is indexed under `owner` and under no other owner.
    pub fn upsert(&mut self, owner: u64, id: u64, data: T)
        requires
            old(self).wf(),
        ensures
            final(self).wf(),
            final(self).items() == old(self).items().insert(id, OwnedItem { data, owner: owner }),
            final(self).index() == index_add(old(self).detached(id), owner, id),
    {
        match self.items.get(&id) {
            Some(prev) => {
                let p = prev.owner;
                self.index_remove(p, id);
            },
            None => {},
        }
        self.items.insert(id, OwnedItem { data, owner: owner });
        self.index_insert(owner, id);
    }

    /// Removes the record of `id` when it is stored under `owner`, and
    /// returns it; anything else is left as it is.
    pub fn remove(&mut self, owner: u64, id: u64) -> (r: Option<OwnedItem<T>>)
        requires
            old(self).wf(),
        ensures
            final(self).wf(),
            if old(self).items().contains_key(id) && old(self).items()[id].owner == owner {
                &&& r == Some(old(self).items()[id])
                &&& final(self).items() == old(self).items().remove(id)
                &&& final(self).index() == index_drop(old(self).index(), owner, id)
            } else {
                &&& r is None
                &&& final(self).items() == old(self).items()
                &&& final(self).index() == old(self).index()
            },
    {
        let owned = match self.items.get(&id) {
            Some(prev) => prev.owner == owner,
            None => false,
        };
        if owned {
            self.index_remove(owner, id);
            self.items.remove(&id)
        } else {
            None
        }
    }

    /// Full-set reconciliation, first half: every id that `owner` owns and
    /// that `keep` does not list leaves the index and then the store.
    pub fn retain(&mut self, owner: u64, keep: &Vec<u64>)
        requires
            old(self).wf(),
        ensures
            final(self).wf(),
            !old(self).index().contains_key(owner) ==> *final(self) == *old(self),
            final(self).index() == kept_index(old(self).index(), owner, keep@),
            final(self).items() == kept_items(old(self).items(), old(self).index(), owner, keep@),
    {
        let ids = match self.index.get(&owner) {
            Some(s) => set_ids(s),
            None => {
                return;
            },
        };
        let ghost all = old(self).index()[owner];
        assert(stale_of(ids@.take(0), keep@) =~= Set::empty());
        assert(old(self).index().insert(owner, all.difference(stale_of(ids@.take(0), keep@)))
            =~~= old(self).index());
        let mut i: usize = 0;
        while i < ids.len()
            invariant
                i <= ids.len(),
                ids@.to_set() == all,
                ids@.no_duplicates(),
                old(self).index().contains_key(owner),
                all == old(self).index()[owner],
                self.wf(),
                self.index() == old(self).index().insert(owner, all.difference(stale_of(ids@.take(i as int), keep@))),
                self.items() == old(self).items().remove_keys(stale_of(ids@.take(i as int), keep@)),
            decreases ids.len() - i,
        {
            let id = ids[i];
            proof {
                assert(ids@.take(i + 1) == ids@.take(i as int).push(id));
                ids@.take(i as int).lemma_push_to_set_commute(id);
            }
            if !list_contains(keep, id) {
                proof {
                    assert(!ids@.take(i as int).contains(id)) by {
                        assert(forall|j: int| 0 <= j < i ==> ids@.take(i as int)[j] != ids@[i as int]);
                    }
                    assert(ids@.contains(id));
                    assert(self.index().contains_key(owner));
                    assert(self.index()[owner].contains(id));
                    assert(self.items()[id].owner == owner);
                }
                self.index_remove(owner, id);
                self.items.remove(&id);
                assert(stale_of(ids@.take(i + 1), keep@) =~= stale_of(ids@.take(i as int), keep@).insert(id));
            } else {
                assert(stale_of(ids@.take(i + 1), keep@) =~= stale_of(ids@.take(i as int), keep@));
            }
            assert(self.index() =~~= old(self).index().insert(owner, all.difference(stale_of(ids@.take(i + 1), keep@))));
            assert(self.items() =~= old(self).items().remove_keys(stale_of(ids@.take(i + 1), keep@)));
            i = i + 1;
        }
        assert(ids@.take(ids.len() as int) == ids@);
        assert(all.difference(stale_of(ids@.take(ids.len() as int), keep@)) =~= all.filter(|x: u64| keep@.contains(x)));
        assert(stale_of(ids@.take(ids.len() as int), keep@) =~= all.filter(|x: u64| !keep@.contains(x)));
    }

    /// Cascading owner deletion: the owner's entry leaves the index, then
    /// every id it owned leaves the store.
    pub fn remove_owner(&mut self, owner: u64)
        requires
            old(self).wf(),
        ensures
            final(self).wf(),
            final(self).index() == old(self).index().remove(owner),
            old(self).index().contains_key(owner) ==> final(self).items()
                == old(self).items().remove_keys(old(self).index()[owner]),
            !old(self).index().contains_key(owner) ==> final(self).items() == old(self).items(),
    {
        let ids = match self.index.remove(&owner) {
            Some(s) => set_ids(&s),
            None => {
                assert(self.index() =~~= old(self).index().remove(owner));
                return;
            },
        };
        assert(self.index() =~~= old(self).index().remove(owner));
        let ghost all = old(self).index()[owner];
        let mut i: usize = 0;
        while i < ids.len()
            invariant
                i <= ids.len(),
                ids@.to_set() == all,
                old(self).wf(),
                old(self).index().contains_key(owner),
                all == old(self).index()[owner],
                self.index() == old(self).index().remove(owner),
                self.items() == old(self).items().remove_keys(ids@.take(i as int).to_set()),
            decreases ids.len() - i,
        {
            let id = ids[i];
            proof {
                assert(ids@.take(i + 1) == ids@.take(i as int).push(id));
                ids@.take(i as int).lemma_push_to_set_commute(id);
            }
            self.items.remove(&id);
            assert(self.items() =~= old(self).items().remove_keys(ids@.take(i + 1).to_set()));
            i = i + 1;
        }
        assert(ids@.take(ids.len() as int) == ids@);
    }
}

} // verus!
