//! A set of filesystem paths held as strings, compared by contents.

use vstd::prelude::*;

use crate::chars::str_eq;

verus! {

/// A set of paths with no duplicates.
pub struct PathTable {
    paths: Vec<String>,
}

impl PathTable {
    /// The stored paths, viewed as character sequences.
    pub closed spec fn paths_seq(self) -> Seq<Seq<char>> {
        self.paths@.map_values(|p: String| p@)
    }

    /// No path occurs twice.
    pub open spec fn wf(self) -> bool {
        forall|i: int, j: int|
            0 <= i < j < self.paths_seq().len() ==> #[trigger] self.paths_seq()[i] != #[trigger] self.paths_seq()[j]
    }

    /// Whether `p` is one of the stored paths.
    pub open spec fn has(self, p: Seq<char>) -> bool {
        exists|i: int| 0 <= i < self.paths_seq().len() && #[trigger] self.paths_seq()[i] == p
    }

    /// The contents as a mathematical set.
    pub open spec fn as_set(self) -> Set<Seq<char>> {
        Set::new(|p: Seq<char>| self.has(p))
    }

    /// An empty table.
    pub fn new() -> (r: PathTable)
        ensures
            r.wf(),
            r.as_set() == Set::<Seq<char>>::empty(),
    {
        let r = PathTable { paths: Vec::new() };
        proof {
            assert(r.as_set() =~= Set::<Seq<char>>::empty());
        }
        r
    }

    /// Position of `p` among the stored paths, if present.
    fn find(&self, p: &str) -> (r: Option<usize>)
        ensures
            (match r {
                Some(i) => i < self.paths_seq().len() && self.paths_seq()[i as int] == p@,
                None => !self.has(p@),
            }),
    {
        let n = self.paths.len();
        let mut i: usize = 0;
        while i < n
            invariant
                n == self.paths@.len(),
                i <= n,
                forall|k: int| 0 <= k < i ==> #[trigger] self.paths_seq()[k] != p@,
            decreases n - i,
        {
            proof {
                assert(self.paths_seq()[i as int] == self.paths@[i as int]@);
            }
            if str_eq(self.paths[i].as_str(), p) {
                return Some(i);
            }
            i = i + 1;
        }
        None
    }

    /// Whether `p` is present.
    pub fn contains(&self, p: &str) -> (r: bool)
        ensures
            r == self.as_set().contains(p@),
    {
        match self.find(p) {
            Some(_) => true,
            None => false,
        }
    }

    /// Insert `p`; a no-op when it is already present.
    pub fn insert_path(&mut self, p: &str)
        requires
            old(self).wf(),
        ensures
            final(self).wf(),
            final(self).as_set() == old(self).as_set().insert(p@),
    {
        match self.find(p) {
            Some(_) => {
                proof {
                    assert(self.as_set() =~= self.as_set().insert(p@));
                }
            },
            None => {
                let ghost before = *self;
                self.paths.push(p.to_owned());
                proof {
                    let bs = before.paths_seq();
                    let asq = self.paths_seq();
                    assert(asq =~= bs.push(p@));
                    assert forall|q: Seq<char>| self.has(q) implies before.has(q) || q == p@ by {
                        let w = choose|w: int| 0 <= w < asq.len() && #[trigger] asq[w] == q;
                        if w < bs.len() {
                            assert(bs[w] == q);
                        }
                    }
                    assert forall|q: Seq<char>| before.has(q) || q == p@ implies self.has(q) by {
                        if q == p@ {
                            assert(asq[bs.len() as int] == q);
                        } else {
                            let w = choose|w: int| 0 <= w < bs.len() && #[trigger] bs[w] == q;
                            assert(asq[w] == q);
                        }
                    }
                    assert forall|i: int, j: int| 0 <= i < j < asq.len() implies asq[i] != asq[j] by {
                        if j == bs.len() {
                            assert(bs[i] == asq[i]);
                            if asq[i] == p@ {
                                assert(before.has(p@));
                            }
                        }
                    }
                    assert(self.as_set() =~= before.as_set().insert(p@));
                }
            },
        }
    }

    /// Remove `p`; a no-op when it is absent.
    pub fn remove_path(&mut self, p: &str)
        requires
            old(self).wf(),
        ensures
            final(self).wf(),
            final(self).as_set() == old(self).as_set().remove(p@),
            !old(self).has(p@) ==> *final(self) == *old(self),
    {
        match self.find(p) {
            Some(i) => {
                let ghost before = *self;
                let _ = self.paths.remove(i);
                proof {
                    let bs = before.paths_seq();
                    let asq = self.paths_seq();
                    assert(asq =~= bs.remove(i as int));
                    assert(forall|k: int| 0 <= k < i ==> asq[k] == bs[k]);
                    assert(forall|k: int| i <= k < asq.len() ==> asq[k] == bs[k + 1]);
                    assert forall|q: Seq<char>| self.has(q) implies before.has(q) && q != p@ by {
                        let w = choose|w: int| 0 <= w < asq.len() && #[trigger] asq[w] == q;
                        if w < i {
                            assert(bs[w] == q);
                            if q == p@ {
                                assert(bs[w] != bs[i as int]);
                            }
                        } else {
                            assert(bs[w + 1] == q);
                            if q == p@ {
                                assert(bs[i as int] != bs[w + 1]);
                            }
                        }
                    }
                    assert forall|q: Seq<char>| before.has(q) && q != p@ implies self.has(q) by {
                        let w = choose|w: int| 0 <= w < bs.len() && #[trigger] bs[w] == q;
                        if w < i {
                            assert(asq[w] == q);
                        } else {
                            assert(w != i);
                            assert(asq[w - 1] == q);
                        }
                    }
                    assert(self.as_set() =~= before.as_set().remove(p@));
                }
            },
            None => {
                proof {
                    assert(self.as_set() =~= self.as_set().remove(p@));
                }
            },
        }
    }
}

} // verus!
