//! The secondary index: a set of ids per index key.
//!
//! `IndexMap` maps an owner or category key to the ids that belong to it.
//! A key with zero members has no entry at all — the index never stores an
//! empty set.  Members are kept in a stable enumeration order, so paginated
//! listings are reproducible while the index is not mutated.

use vstd::prelude::*;
use crate::strmap::StrMap;

verus! {

/// The page of `s` selected by `start` and `limit`: skip `start` items,
/// then take at most `limit`.
pub open spec fn page<T>(s: Seq<T>, start: nat, limit: nat) -> Seq<T> {
    if start >= s.len() {
        Seq::empty()
    } else if start + limit >= s.len() {
        s.subrange(start as int, s.len() as int)
    } else {
        s.subrange(start as int, (start + limit) as int)
    }
}

/// The index of the single occurrence of `x` in `s` (meaningful when `s`
/// contains `x` exactly once).
pub open spec fn idx_of(s: Seq<Seq<char>>, x: Seq<char>) -> int {
    choose|i: int| 0 <= i < s.len() && s[i] == x
}

/// A multi-map from string keys to duplicate-free, non-empty id sets.
pub struct IndexMap {
    sets: StrMap<Vec<String>>,
}

impl View for IndexMap {
    type V = Map<Seq<char>, Seq<Seq<char>>>;

    closed spec fn view(&self) -> Map<Seq<char>, Seq<Seq<char>>> {
        self.sets@.map_values(|v: Vec<String>| v.deep_view())
    }
}

impl IndexMap {
    /// Every stored set is non-empty and free of duplicates.
    pub closed spec fn wf(&self) -> bool {
        &&& self.sets.wf()
        &&& forall|k: Seq<char>| #[trigger] self.sets@.contains_key(k)
            ==> self.sets@[k].deep_view().len() > 0
        &&& forall|k: Seq<char>| #[trigger] self.sets@.contains_key(k)
            ==> (forall|i: int, j: int|
                0 <= i < j < self.sets@[k].deep_view().len()
                    ==> self.sets@[k].deep_view()[i] != self.sets@[k].deep_view()[j])
    }

    /// Is `id` a member of the set stored for `key`?
    pub open spec fn mem(&self, key: Seq<char>, id: Seq<char>) -> bool {
        self@.contains_key(key) && self@[key].contains(id)
    }

    /// An empty index.
    pub fn new() -> (r: IndexMap)
        ensures
            r.wf(),
            r@ == Map::<Seq<char>, Seq<Seq<char>>>::empty(),
    {
        let r = IndexMap { sets: StrMap::new() };
        proof {
            assert(r@ =~= Map::<Seq<char>, Seq<Seq<char>>>::empty());
        }
        r
    }

    /// Is any id at all indexed under `key`?
    pub fn contains_key(&self, key: &String) -> (r: bool)
        ensures
            r == self@.contains_key(key@),
    {
        self.sets.contains_key(key)
    }

    /// Add `id` to the set of `key`, creating the set on first insertion.
    pub fn add(&mut self, key: &String, id: &String)
        requires
            old(self).wf(),
            !old(self).mem(key@, id@),
        ensures
            final(self).wf(),
            final(self)@ == old(self)@.insert(
                key@,
                if old(self)@.contains_key(key@) {
                    old(self)@[key@].push(id@)
                } else {
                    seq![id@]
                },
            ),
            forall|k: Seq<char>, x: Seq<char>|
                #[trigger] final(self).mem(k, x)
                    <==> old(self).mem(k, x) || (k == key@ && x == id@),
    {
        let mut ids: Vec<String> = match self.sets.remove(key) {
            Some(v) => v,
            None => Vec::new(),
        };
        let ghost pre = ids.deep_view();
        ids.push(id.clone());
        proof {
            assert(ids.deep_view() =~= pre.push(id@));
        }
        self.sets.insert(key.clone(), ids);
        proof {
            let post = self@;
            let goal = old(self)@.insert(
                key@,
                if old(self)@.contains_key(key@) {
                    old(self)@[key@].push(id@)
                } else {
                    seq![id@]
                },
            );
            assert(pre.push(id@) =~= (if old(self)@.contains_key(key@) {
                old(self)@[key@].push(id@)
            } else {
                seq![id@]
            }));
            assert(post =~= goal);
            assert forall|k: Seq<char>, x: Seq<char>| #[trigger] final(self).mem(k, x) implies
                old(self).mem(k, x) || (k == key@ && x == id@) by {
                if k == key@ {
                    let s = final(self)@[k];
                    if final(self)@[k].contains(x) {
                        let i = choose|i: int| 0 <= i < s.len() && s[i] == x;
                        if i < pre.len() {
                            assert(old(self).mem(k, x));
                        }
                    }
                }
            }
            assert forall|k: Seq<char>, x: Seq<char>|
                old(self).mem(k, x) || (k == key@ && x == id@) implies
                #[trigger] final(self).mem(k, x) by {
                if k == key@ {
                    let s = final(self)@[k];
                    if x == id@ {
                        assert(s[s.len() - 1] == x);
                    } else {
                        let i = choose|i: int| 0 <= i < pre.len() && pre[i] == x;
                        assert(s[i] == x);
                    }
                } else {
                    if old(self).mem(k, x) {
                        assert(final(self)@[k] == old(self)@[k]);
                    }
                }
            }
        }
    }

    /// Remove `id` from the set of `key`; a set left empty is dropped from
    /// the index entirely.
    pub fn remove(&mut self, key: &String, id: &String)
        requires
            old(self).wf(),
            old(self).mem(key@, id@),
        ensures
            final(self).wf(),
            final(self)@ == (if old(self)@[key@].len() == 1 {
                old(self)@.remove(key@)
            } else {
                old(self)@.insert(key@, old(self)@[key@].remove(idx_of(old(self)@[key@], id@)))
            }),
            forall|k: Seq<char>, x: Seq<char>|
                #[trigger] final(self).mem(k, x)
                    <==> old(self).mem(k, x) && !(k == key@ && x == id@),
    {
        let ghost pre = old(self)@[key@];
        let mut ids: Vec<String> = match self.sets.remove(key) {
            Some(v) => v,
            None => Vec::new(),
        };
        proof {
            assert(ids.deep_view() == pre);
        }
        let mut i: usize = 0;
        let mut found: bool = false;
        let n = ids.len();
        while i < n
            invariant
                n == ids.len(),
                ids.deep_view() == pre,
                i <= n,
                found ==> i < n && pre[i as int] == id@,
                !found ==> forall|j: int| 0 <= j < i ==> pre[j] != id@,
                pre.contains(id@),
            ensures
                found,
                i < n,
                pre[i as int] == id@,
            decreases n - i,
        {
            if ids[i] == *id {
                found = true;
                break;
            }
            i = i + 1;
        }
        proof {
            assert(pre[i as int] == id@);
            assert(idx_of(pre, id@) == i as int) by {
                let w = idx_of(pre, id@);
                assert(0 <= w < pre.len() && pre[w] == id@);
                if w != i as int {
                    assert(false);  // duplicates are excluded by wf
                }
            }
        }
        ids.remove(i);
        proof {
            assert(ids.deep_view() =~= pre.remove(i as int));
        }
        if ids.is_empty() {
            proof {
                assert(pre.len() == 1);
                assert(final(self)@ =~= old(self)@.remove(key@));
            }
        } else {
            proof {
                assert(pre.len() != 1) by {
                    if pre.len() == 1 {
                        assert(pre.remove(i as int).len() == 0);
                    }
                }
            }
            self.sets.insert(key.clone(), ids);
            proof {
                assert(final(self)@ =~= old(self)@.insert(key@, pre.remove(i as int)));
            }
        }
        proof {
            let removed = pre.remove(i as int);
            assert forall|k: Seq<char>, x: Seq<char>| #[trigger] final(self).mem(k, x) implies
                old(self).mem(k, x) && !(k == key@ && x == id@) by {
                if k == key@ && final(self)@.contains_key(k) {
                    let s = final(self)@[k];
                    let w = choose|w: int| 0 <= w < s.len() && s[w] == x;
                    if w < i as int {
                        assert(pre[w] == x);
                    } else {
                        assert(pre[w + 1] == x);
                    }
                    assert(x != id@);  // id@ occurs only at index i in pre
                }
            }
            assert forall|k: Seq<char>, x: Seq<char>|
                old(self).mem(k, x) && !(k == key@ && x == id@) implies
                #[trigger] final(self).mem(k, x) by {
                if k == key@ {
                    let w = choose|w: int| 0 <= w < pre.len() && pre[w] == x;
                    assert(w != i as int);
                    if w < i as int {
                        assert(removed[w] == x);
                    } else {
                        assert(removed[w - 1] == x);
                    }
                    assert(final(self)@.contains_key(k));
                    assert(final(self)@[k].contains(x));
                }
            }
            assert(final(self).wf()) by {
                assert forall|k: Seq<char>| #[trigger] self.sets@.contains_key(k) implies
                    self.sets@[k].deep_view().len() > 0 && (forall|a: int, b: int|
                        0 <= a < b < self.sets@[k].deep_view().len()
                            ==> self.sets@[k].deep_view()[a] != self.sets@[k].deep_view()[b]) by {
                    if k == key@ {
                        assert(self.sets@[k].deep_view() == removed);
                        assert forall|a: int, b: int| 0 <= a < b < removed.len() implies
                            removed[a] != removed[b] by {
                            let pa: int = if a < i as int { a } else { a + 1 };
                            let pb: int = if b < i as int { b } else { b + 1 };
                            assert(removed[a] == pre[pa]);
                            assert(removed[b] == pre[pb]);
                        }
                    } else {
                        assert(old(self).sets@.contains_key(k));
                        assert(self.sets@[k] == old(self).sets@[k]);
                    }
                }
            }
        }
    }

    /// The ids of `key` from position `start`, at most `limit` of them, in
    /// the index's stable enumeration order.  An unknown key yields an
    /// empty listing, not an error.
    pub fn list(&self, key: &String, start: u64, limit: u64) -> (r: Vec<String>)
        requires
            self.wf(),
        ensures
            r.deep_view() == page(
                if self@.contains_key(key@) { self@[key@] } else { Seq::empty() },
                start as nat,
                limit as nat,
            ),
    {
        let ghost full: Seq<Seq<char>> = if self@.contains_key(key@) {
            self@[key@]
        } else {
            Seq::empty()
        };
        let mut r: Vec<String> = Vec::new();
        match self.sets.get(key) {
            None => {
                proof {
                    assert(r.deep_view() =~= page(full, start as nat, limit as nat));
                }
                r
            },
            Some(ids) => {
                proof {
                    assert(ids.deep_view() == full);
                }
                let n = ids.len();
                if start >= n as u64 {
                    proof {
                        assert(r.deep_view() =~= page(full, start as nat, limit as nat));
                    }
                    return r;
                }
                let first = start as usize;
                let remaining = n - first;
                let take: usize = if limit < remaining as u64 {
                    limit as usize
                } else {
                    remaining
                };
                let mut k: usize = 0;
                while k < take
                    invariant
                        first + take <= n,
                        n == ids.len(),
                        ids.deep_view() == full,
                        k <= take,
                        r.deep_view() =~= full.subrange(first as int, first as int + k as int),
                    decreases take - k,
                {
                    let ghost prev = r.deep_view();
                    r.push(ids[first + k].clone());
                    proof {
                        assert(r.deep_view() =~= prev.push(full[first as int + k as int]));
                        assert(r.deep_view() =~= full.subrange(
                            first as int,
                            first as int + (k + 1) as int,
                        ));
                    }
                    k = k + 1;
                }
                proof {
                    assert(r.deep_view() =~= page(full, start as nat, limit as nat));
                }
                r
            },
        }
    }
}

} // verus!
