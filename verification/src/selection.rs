//! The buffer of marked paths.
//!
//! A set of absolute paths, scoped to the whole run: it survives every
//! navigation and is emptied only by an explicit clear or after a
//! successful batch deletion. It may hold paths that no longer exist.

use vstd::prelude::*;

verus! {

/// The set of marked paths.
pub struct SelectionBuffer {
    items: Vec<String>,
}

/// A path set with the membership of `p` flipped.
pub open spec fn toggled_set(s: Set<Seq<char>>, p: Seq<char>) -> Set<Seq<char>> {
    if s.contains(p) {
        s.remove(p)
    } else {
        s.insert(p)
    }
}

/// Flipping a path's membership twice restores the original set.
pub proof fn lemma_toggle_twice(s: Set<Seq<char>>, p: Seq<char>)
    ensures
        toggled_set(toggled_set(s, p), p) == s,
{
    assert(toggled_set(toggled_set(s, p), p) =~= s);
}

impl SelectionBuffer {
    /// The marked paths, in the order they were marked.
    pub closed spec fn paths(&self) -> Seq<Seq<char>> {
        self.items@.map_values(|s: String| s@)
    }

    /// The marked paths as a set.
    pub open spec fn path_set(&self) -> Set<Seq<char>> {
        self.paths().to_set()
    }

    /// No path is held twice.
    pub open spec fn wf(&self) -> bool {
        self.paths().no_duplicates()
    }

    /// An empty buffer.
    pub fn new() -> (r: SelectionBuffer)
        ensures
            r.wf(),
            r.paths() == Seq::<Seq<char>>::empty(),
    {
        let r = SelectionBuffer { items: Vec::new() };
        proof {
            assert(r.paths() =~= Seq::<Seq<char>>::empty());
        }
        r
    }

    /// How many paths are marked.
    pub fn count(&self) -> (r: usize)
        ensures
            r == self.paths().len(),
    {
        self.items.len()
    }

    /// Whether `p` is marked.
    pub fn contains_path(&self, p: &String) -> (r: bool)
        ensures
            r == self.path_set().contains(p@),
    {
        let mut i: usize = 0;
        while i < self.items.len()
            invariant
                i <= self.items.len(),
                forall|k: int| 0 <= k < i ==> self.paths()[k] != p@,
            decreases self.items.len() - i,
        {
            if self.items[i] == *p {
                assert(self.paths()[i as int] == p@);
                assert(self.paths().contains(p@));
                return true;
            }
            i = i + 1;
        }
        proof {
            if self.paths().contains(p@) {
                let k = choose|k: int|
                    0 <= k < self.paths().len() && #[trigger] self.paths()[k] == p@;
                assert(false);
            }
        }
        false
    }

    /// Flip the membership of `p`: mark it when unmarked, unmark it when
    /// marked.
    pub fn toggle(&mut self, p: &String)
        requires
            old(self).wf(),
        ensures
            final(self).wf(),
            final(self).path_set() == toggled_set(old(self).path_set(), p@),
            old(self).path_set().contains(p@) ==> exists|i: int|
                0 <= i < old(self).paths().len() && old(self).paths()[i] == p@
                    && final(self).paths() == old(self).paths().remove(i),
            !old(self).path_set().contains(p@) ==> final(self).paths() == old(
                self,
            ).paths().push(p@),
    {
        let ghost oldpaths = self.paths();
        let mut i: usize = 0;
        while i < self.items.len()
            invariant
                i <= self.items.len(),
                self.paths() == oldpaths,
                old(self).wf(),
                self == old(self),
                forall|k: int| 0 <= k < i ==> oldpaths[k] != p@,
            decreases self.items.len() - i,
        {
            if self.items[i] == *p {
                assert(oldpaths[i as int] == p@);
                assert(oldpaths.contains(p@));
                self.items.remove(i);
                proof {
                    assert(self.paths() =~= oldpaths.remove(i as int));
                    assert(self.paths().no_duplicates()) by {
                        assert(forall|a: int|
                            0 <= a < i ==> #[trigger] self.paths()[a] == oldpaths[a]);
                        assert(forall|a: int|
                            i <= a < self.paths().len() ==> #[trigger] self.paths()[a] == oldpaths[
                                a + 1
                            ]);
                    }
                    assert(self.path_set() =~= toggled_set(oldpaths.to_set(), p@)) by {
                        assert(forall|x: Seq<char>|
                            self.paths().contains(x) ==> oldpaths.contains(x)) by {
                            assert(forall|a: int|
                                0 <= a < self.paths().len() ==> oldpaths.contains(
                                    #[trigger] self.paths()[a],
                                )) by {
                                assert(forall|a: int|
                                    0 <= a < i ==> #[trigger] self.paths()[a] == oldpaths[a]);
                                assert(forall|a: int|
                                    i <= a < self.paths().len() ==> #[trigger] self.paths()[a]
                                        == oldpaths[a + 1]);
                            }
                        }
                        assert(!self.paths().contains(p@)) by {
                            if self.paths().contains(p@) {
                                let a = choose|a: int|
                                    0 <= a < self.paths().len() && #[trigger] self.paths()[a]
                                        == p@;
                                if a < i {
                                    assert(oldpaths[a] == p@);
                                } else {
                                    assert(oldpaths[a + 1] == p@);
                                    assert(oldpaths[i as int] == p@);
                                }
                                assert(false);
                            }
                        }
                        assert(forall|x: Seq<char>|
                            oldpaths.contains(x) && x != p@ ==> self.paths().contains(x)) by {
                            assert forall|x: Seq<char>|
                                oldpaths.contains(x) && x != p@ implies self.paths().contains(
                                x,
                            ) by {
                                let a = choose|a: int|
                                    0 <= a < oldpaths.len() && #[trigger] oldpaths[a] == x;
                                if a < i {
                                    assert(self.paths()[a] == x);
                                } else if a == i {
                                    assert(false);
                                } else {
                                    assert(self.paths()[a - 1] == x);
                                }
                            }
                        }
                    }
                }
                return ;
            }
            i = i + 1;
        }
        proof {
            if oldpaths.contains(p@) {
                let k = choose|k: int| 0 <= k < oldpaths.len() && #[trigger] oldpaths[k] == p@;
                assert(false);
            }
        }
        self.items.push(p.clone());
        proof {
            assert(self.paths() =~= oldpaths.push(p@));
            assert(self.paths().no_duplicates()) by {
                assert(forall|a: int|
                    0 <= a < oldpaths.len() ==> #[trigger] self.paths()[a] == oldpaths[a]);
            }
            assert(self.path_set() =~= toggled_set(oldpaths.to_set(), p@)) by {
                assert(forall|a: int|
                    0 <= a < oldpaths.len() ==> #[trigger] self.paths()[a] == oldpaths[a]);
                assert(self.paths()[oldpaths.len() as int] == p@);
                assert forall|x: Seq<char>|
                    self.paths().contains(x) implies oldpaths.to_set().insert(p@).contains(
                    x,
                ) by {
                    let a = choose|a: int|
                        0 <= a < self.paths().len() && #[trigger] self.paths()[a] == x;
                    if a < oldpaths.len() {
                        assert(oldpaths[a] == x);
                        assert(oldpaths.contains(x));
                    }
                }
                assert forall|x: Seq<char>|
                    oldpaths.to_set().insert(p@).contains(x) implies self.paths().contains(
                    x,
                ) by {
                    if x == p@ {
                        assert(self.paths()[oldpaths.len() as int] == x);
                    } else {
                        let a = choose|a: int|
                            0 <= a < oldpaths.len() && #[trigger] oldpaths[a] == x;
                        assert(self.paths()[a] == x);
                    }
                }
            }
        }
    }

    /// Unmark everything.
    pub fn clear(&mut self)
        ensures
            final(self).wf(),
            final(self).paths() == Seq::<Seq<char>>::empty(),
    {
        self.items.clear();
        proof {
            assert(self.paths() =~= Seq::<Seq<char>>::empty());
        }
    }

    /// The marked paths, for handing to the deletion workflow.
    pub fn paths_vec(&self) -> (r: Vec<String>)
        ensures
            r@.map_values(|s: String| s@) == self.paths(),
    {
        let mut r: Vec<String> = Vec::new();
        let mut i: usize = 0;
        while i < self.items.len()
            invariant
                i <= self.items.len(),
                r@.len() == i,
                forall|k: int|
                    0 <= k < i ==> (#[trigger] r@[k])@ == self.paths()[k],
            decreases self.items.len() - i,
        {
            r.push(self.items[i].clone());
            i = i + 1;
        }
        proof {
            assert(r@.map_values(|s: String| s@) =~= self.paths());
        }
        r
    }
}

} // verus!
