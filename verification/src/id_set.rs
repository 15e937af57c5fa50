//! A small set of identifiers.

use std::collections::HashSet;

use vstd::prelude::*;
use vstd::std_specs::hash::*;
use vstd::std_specs::iter::IteratorSpec;

verus! {

/// A set of identifiers.
#[derive(Debug)]
pub struct IdSet {
    ids: HashSet<u128>,
}

impl View for IdSet {
    type V = Set<u128>;

    closed spec fn view(&self) -> Set<u128> {
        self.ids@
    }
}

impl IdSet {
    pub fn new() -> (s: IdSet)
        ensures
            s@ == Set::<u128>::empty(),
    {
        IdSet { ids: HashSet::new() }
    }

    pub fn contains(&self, id: u128) -> (r: bool)
        ensures
            r == self@.contains(id),
    {
        broadcast use group_hash_axioms;

        self.ids.contains(&id)
    }

    pub fn insert(&mut self, id: u128)
        ensures
            final(self)@ == old(self)@.insert(id),
    {
        broadcast use group_hash_axioms;

        self.ids.insert(id);
    }

    pub fn remove(&mut self, id: u128)
        ensures
            final(self)@ == old(self)@.remove(id),
    {
        broadcast use group_hash_axioms;

        self.ids.remove(&id);
    }

    /// Drops everything that is not in `keep`.
    pub fn retain(&mut self, keep: &IdSet)
        ensures
            final(self)@ == old(self)@.intersect(keep@),
    {
        broadcast use group_hash_axioms;

        let mut kept: HashSet<u128> = HashSet::new();
        for id in it: self.ids.iter()
            invariant
                it.seq().unref().to_set() == self.ids@,
                forall|x: u128| #[trigger]
                    kept@.contains(x) <==> keep@.contains(x) && it.seq().unref().take(
                        it.index() as int,
                    ).contains(x),
        {
            let ghost seen = it.seq().unref().take(it.index() as int);
            proof {
                assert(it.seq().unref()[it.index() as int] == *id);
                assert(it.seq().unref().take(it.index() + 1) =~= seen.push(*id));
                assert forall|x: u128| #[trigger]
                    seen.push(*id).contains(x) <==> seen.contains(x) || x == *id by {
                    if seen.contains(x) {
                        let k = choose|k: int| 0 <= k < seen.len() && seen[k] == x;
                        assert(seen.push(*id)[k] == x);
                    }
                    if x == *id {
                        assert(seen.push(*id)[seen.len() as int] == x);
                    }
                }
            }
            if keep.contains(*id) {
                kept.insert(*id);
            }
        }
        proof {
            let all = spec_hash_keys_iter(&self.ids).remaining().unref();
            assert(all.take(all.len() as int) =~= all);
            assert(kept@ =~= self.ids@.intersect(keep@));
        }
        self.ids = kept;
    }

    pub fn clear(&mut self)
        ensures
            final(self)@ == Set::<u128>::empty(),
    {
        self.ids.clear();
    }
}

} // verus!
