//! A set of paths.

use vstd::prelude::*;

verus! {

/// The texts that occur in `items`.
pub open spec fn set_of(items: Seq<String>) -> Set<Seq<char>> {
    Set::new(|p: Seq<char>| exists|i: int| 0 <= i < items.len() && items[i]@ == p)
}

proof fn lemma_set_of_push(items: Seq<String>, last: String)
    ensures
        set_of(items.push(last)) == set_of(items).insert(last@),
{
    let grown = items.push(last);
    assert forall|p: Seq<char>| set_of(grown).contains(p) <==> set_of(items).insert(
        last@,
    ).contains(p) by {
        if set_of(grown).contains(p) {
            let i = choose|i: int| 0 <= i < grown.len() && grown[i]@ == p;
            if i < items.len() {
                assert(items[i]@ == p);
            }
        }
        if set_of(items).contains(p) {
            let i = choose|i: int| 0 <= i < items.len() && items[i]@ == p;
            assert(grown[i]@ == p);
        }
        if p == last@ {
            assert(grown[items.len() as int]@ == p);
        }
    }
    assert(set_of(grown) =~= set_of(items).insert(last@));
}

/// A set of paths.
#[derive(Debug)]
pub struct PathSet {
    items: Vec<String>,
}

impl View for PathSet {
    type V = Set<Seq<char>>;

    closed spec fn view(&self) -> Set<Seq<char>> {
        set_of(self.items@)
    }
}

impl PathSet {
    /// The empty set.
    pub fn new() -> (r: PathSet)
        ensures
            r@ == Set::<Seq<char>>::empty(),
    {
        let r = PathSet { items: Vec::new() };
        assert(r@ =~= Set::<Seq<char>>::empty());
        r
    }

    /// Whether the set is empty.
    pub fn is_empty(&self) -> (r: bool)
        ensures
            r == (self@ == Set::<Seq<char>>::empty()),
    {
        proof {
            if self.items@.len() == 0 {
                assert(self@ =~= Set::<Seq<char>>::empty());
            } else {
                assert(self@.contains(self.items@[0]@));
            }
        }
        self.items.len() == 0
    }

    /// Whether `path` is in the set.
    pub fn contains(&self, path: &String) -> (r: bool)
        ensures
            r == self@.contains(path@),
    {
        let mut i: usize = 0;
        while i < self.items.len()
            invariant
                i <= self.items.len(),
                forall|j: int| 0 <= j < i ==> self.items@[j]@ != path@,
            decreases self.items.len() - i,
        {
            if self.items[i] == *path {
                return true;
            }
            i += 1;
        }
        false
    }

    /// Puts `path` into the set, and says whether it was new.
    pub fn insert(&mut self, path: String) -> (r: bool)
        ensures
            final(self)@ == old(self)@.insert(path@),
            r == !old(self)@.contains(path@),
    {
        if self.contains(&path) {
            assert(self@ =~= self@.insert(path@));
            false
        } else {
            proof {
                lemma_set_of_push(self.items@, path);
            }
            self.items.push(path);
            true
        }
    }

    /// Takes `path` out of the set, and says whether it was in it.
    pub fn remove(&mut self, path: &String) -> (r: bool)
        ensures
            final(self)@ == old(self)@.remove(path@),
            r == old(self)@.contains(path@),
    {
        let ghost before = self.items@;
        let mut kept: Vec<String> = Vec::new();
        let mut found = false;
        let mut i: usize = 0;
        proof {
            assert(set_of(before.take(0)) =~= Set::<Seq<char>>::empty());
            assert(set_of(kept@) =~= set_of(before.take(0)).remove(path@));
        }
        while i < self.items.len()
            invariant
                i <= self.items.len(),
                self.items@ == before,
                found == set_of(before.take(i as int)).contains(path@),
                set_of(kept@) == set_of(before.take(i as int)).remove(path@),
            decreases self.items.len() - i,
        {
            proof {
                lemma_set_of_push(before.take(i as int), before[i as int]);
                assert(before.take(i as int).push(before[i as int]) =~= before.take(i + 1));
            }
            if self.items[i] == *path {
                found = true;
                proof {
                    assert(set_of(before.take(i as int)).insert(path@).remove(path@) =~= set_of(
                        before.take(i as int),
                    ).remove(path@));
                }
            } else {
                let item = self.items[i].clone();
                proof {
                    lemma_set_of_push(kept@, item);
                    assert(set_of(before.take(i as int)).remove(path@).insert(item@) =~= set_of(
                        before.take(i as int),
                    ).insert(item@).remove(path@));
                }
                kept.push(item);
            }
            i += 1;
        }
        proof {
            assert(before.take(i as int) =~= before);
        }
        self.items = kept;
        found
    }
}

} // verus!
