//! A small set of paths.

use vstd::prelude::*;
use vstd::string::*;

use crate::text::{lemma_texts_push, texts};

verus! {

/// A set of paths, each held once.
#[derive(Debug)]
pub struct PathSet {
    paths: Vec<String>,
}

impl View for PathSet {
    type V = Set<Seq<char>>;

    closed spec fn view(&self) -> Set<Seq<char>> {
        texts(self.paths@).to_set()
    }
}

impl PathSet {
    #[verifier::type_invariant]
    closed spec fn distinct(self) -> bool {
        texts(self.paths@).no_duplicates()
    }

    pub fn new() -> (s: PathSet)
        ensures
            s@ == Set::<Seq<char>>::empty(),
    {
        let s = PathSet { paths: Vec::new() };
        proof {
            assert(texts(s.paths@) =~= Seq::<Seq<char>>::empty());
            assert(s@ =~= Set::<Seq<char>>::empty());
        }
        s
    }

    pub fn contains(&self, path: &str) -> (r: bool)
        ensures
            r == self@.contains(path@),
    {
        let wanted = path.to_owned();
        for i in 0..self.paths.len()
            invariant
                wanted@ == path@,
                forall|j: int| 0 <= j < i ==> #[trigger] texts(self.paths@)[j] != path@,
        {
            proof {
                assert(texts(self.paths@)[i as int] == self.paths@[i as int]@);
            }
            if self.paths[i] == wanted {
                proof {
                    assert(texts(self.paths@).contains(path@));
                }
                return true;
            }
        }
        false
    }

    /// How many paths there are.
    pub fn len(&self) -> (n: usize)
        ensures
            n == self@.len(),
    {
        proof {
            use_type_invariant(self);
            texts(self.paths@).unique_seq_to_set();
        }
        self.paths.len()
    }

    pub fn insert(&mut self, path: &str)
        ensures
            final(self)@ == old(self)@.insert(path@),
    {
        proof {
            use_type_invariant(&*self);
        }
        if self.contains(path) {
            proof {
                assert(self@.insert(path@) =~= self@);
            }
            return;
        }
        let mut paths: Vec<String> = Vec::new();
        std::mem::swap(&mut paths, &mut self.paths);
        let ghost before = texts(paths@);
        let added = path.to_owned();
        proof {
            lemma_texts_push(paths@, added);
        }
        paths.push(added);
        proof {
            let after = texts(paths@);
            assert(after == before.push(path@));
            assert(!before.contains(path@));
            assert(after.no_duplicates());
            assert forall|x: Seq<char>| #[trigger]
                after.to_set().contains(x) == before.to_set().insert(path@).contains(x) by {
                lemma_contains_push(before, path@, x);
            }
            assert(after.to_set() =~= before.to_set().insert(path@));
        }
        self.paths = paths;
    }

    pub fn remove(&mut self, path: &str)
        ensures
            final(self)@ == old(self)@.remove(path@),
    {
        proof {
            use_type_invariant(&*self);
        }
        let unwanted = path.to_owned();
        let mut kept: Vec<String> = Vec::new();
        let ghost all = texts(self.paths@);
        proof {
            assert(texts(kept@) =~= Seq::<Seq<char>>::empty());
        }
        for i in 0..self.paths.len()
            invariant
                unwanted@ == path@,
                all == texts(self.paths@),
                all.len() == self.paths@.len(),
                all.no_duplicates(),
                texts(kept@).no_duplicates(),
                forall|x: Seq<char>| #[trigger]
                    texts(kept@).contains(x) <==> all.take(i as int).contains(x) && x != path@,
        {
            let one = self.paths[i].clone();
            let ghost before = texts(kept@);
            proof {
                let t = all.take(i as int);
                assert(one@ == all[i as int]);
                assert(all.take(i + 1) =~= t.push(one@));
                assert(!t.contains(one@)) by {
                    if t.contains(one@) {
                        let k = choose|k: int| 0 <= k < t.len() && t[k] == one@;
                        assert(all[k] == all[i as int]);
                    }
                }
                assert forall|x: Seq<char>| #[trigger]
                    t.push(one@).contains(x) <==> t.contains(x) || x == one@ by {
                    lemma_contains_push(t, one@, x);
                }
                lemma_texts_push(kept@, one);
                assert forall|x: Seq<char>| #[trigger]
                    before.push(one@).contains(x) <==> before.contains(x) || x == one@ by {
                    lemma_contains_push(before, one@, x);
                }
            }
            if one != unwanted {
                kept.push(one);
                proof {
                    assert(texts(kept@) == before.push(all[i as int]));
                    assert(!before.contains(all[i as int]));
                }
            }
        }
        proof {
            assert(all.take(all.len() as int) =~= all);
            assert(texts(kept@).to_set() =~= all.to_set().remove(path@));
        }
        *self = PathSet { paths: kept };
    }
}

proof fn lemma_contains_push(s: Seq<Seq<char>>, a: Seq<char>, x: Seq<char>)
    ensures
        s.push(a).contains(x) <==> s.contains(x) || x == a,
{
    if s.contains(x) {
        let k = choose|k: int| 0 <= k < s.len() && s[k] == x;
        assert(s.push(a)[k] == x);
    }
    if x == a {
        assert(s.push(a)[s.len() as int] == x);
    }
    if s.push(a).contains(x) {
        let k = choose|k: int| 0 <= k < s.push(a).len() && s.push(a)[k] == x;
        if k < s.len() {
            assert(s[k] == x);
        }
    }
}

} // verus!
