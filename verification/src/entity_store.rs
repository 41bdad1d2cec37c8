//! The lifecycle store of one entity kind.
//!
//! An `EntityStore` pairs a primary record (the entity's owner) with a
//! metadata payload under the same id — the two are inserted and removed
//! together, so one exists exactly when the other does — and maintains the
//! owner index alongside.  Jobs, categories and tokens all live in stores
//! of this shape.

use vstd::prelude::*;
use crate::errors::RegistryError;
use crate::index_map::{IndexMap, idx_of, page};
use crate::strmap::StrMap;

verus! {

/// The primary store, metadata store and owner index of one entity kind.
pub struct EntityStore<M> {
    records: StrMap<String>,
    metadata: StrMap<M>,
    by_owner: IndexMap,
}

impl<M> EntityStore<M> {
    /// id -> owner of every live entity.
    pub closed spec fn owners(&self) -> Map<Seq<char>, String> {
        self.records@
    }

    /// id -> metadata payload of every live entity.
    pub closed spec fn metas(&self) -> Map<Seq<char>, M> {
        self.metadata@
    }

    /// owner -> ids of the owner index.
    pub closed spec fn owner_index(&self) -> Map<Seq<char>, Seq<Seq<char>>> {
        self.by_owner@
    }

    /// Does a record (and so a metadata entry) exist for `id`?
    pub open spec fn has(&self, id: Seq<char>) -> bool {
        self.owners().contains_key(id)
    }

    /// Is `id` a member of `owner`'s index set?
    pub open spec fn index_mem(&self, owner: Seq<char>, id: Seq<char>) -> bool {
        self.owner_index().contains_key(owner) && self.owner_index()[owner].contains(id)
    }

    /// The store's cross-structure invariants: a record exists exactly
    /// when its metadata does; an id is indexed under an owner exactly
    /// when its record names that owner; and no index set is stored
    /// empty.
    pub open spec fn consistent(&self) -> bool {
        &&& self.owners().dom() == self.metas().dom()
        &&& forall|o: Seq<char>, id: Seq<char>|
            #[trigger] self.index_mem(o, id)
                <==> self.owners().contains_key(id) && self.owners()[id]@ == o
        &&& forall|o: Seq<char>| #[trigger] self.owner_index().contains_key(o)
            ==> self.owner_index()[o].len() > 0
    }

    /// The component stores are well formed.
    pub closed spec fn parts_wf(&self) -> bool {
        self.records.wf() && self.metadata.wf() && self.by_owner.wf()
    }

    /// Well-formedness: component invariants plus the cross-structure
    /// invariants.  Constructors establish it; every operation preserves
    /// it.
    pub open spec fn wf(&self) -> bool {
        self.parts_wf() && self.consistent()
    }

    /// An empty store.
    pub fn new() -> (r: EntityStore<M>)
        ensures
            r.wf(),
            r.owners() == Map::<Seq<char>, String>::empty(),
            r.metas() == Map::<Seq<char>, M>::empty(),
            r.owner_index() == Map::<Seq<char>, Seq<Seq<char>>>::empty(),
    {
        let r = EntityStore {
            records: StrMap::new(),
            metadata: StrMap::new(),
            by_owner: IndexMap::new(),
        };
        proof {
            assert(r.owners().dom() =~= r.metas().dom());
        }
        r
    }

    /// Does a record exist for `id`?
    pub fn contains(&self, id: &String) -> (r: bool)
        ensures
            r == self.has(id@),
    {
        self.records.contains_key(id)
    }

    /// The owner of `id`, if it exists.
    pub fn owner_of(&self, id: &String) -> (r: Option<&String>)
        requires
            self.wf(),
        ensures
            match r {
                Some(o) => self.has(id@) && *o == self.owners()[id@],
                None => !self.has(id@),
            },
    {
        self.records.get(id)
    }

    /// The metadata of `id`, if it exists.
    pub fn meta_of(&self, id: &String) -> (r: Option<&M>)
        requires
            self.wf(),
        ensures
            match r {
                Some(m) => self.has(id@) && *m == self.metas()[id@],
                None => !self.has(id@),
            },
    {
        self.metadata.get(id)
    }

    /// Create the entity `id` owned by `owner` with payload `m`: record
    /// and metadata are inserted together and the id is added to the
    /// owner's index set.  Fails with `DuplicateId`, touching nothing,
    /// when a record for `id` already exists.
    pub fn create(&mut self, id: &String, owner: &String, m: M)
        -> (r: Result<(), RegistryError>)
        requires
            old(self).wf(),
        ensures
            final(self).wf(),
            r is Err <==> old(self).has(id@),
            r matches Err(e) ==> e == RegistryError::DuplicateId && *final(self) == *old(self),
            r is Ok ==> final(self).owners() == old(self).owners().insert(id@, *owner),
            r is Ok ==> final(self).metas() == old(self).metas().insert(id@, m),
            r is Ok ==> final(self).owner_index() == old(self).owner_index().insert(
                owner@,
                if old(self).owner_index().contains_key(owner@) {
                    old(self).owner_index()[owner@].push(id@)
                } else {
                    seq![id@]
                },
            ),
            r is Ok ==> forall|o: Seq<char>, x: Seq<char>|
                #[trigger] final(self).index_mem(o, x)
                    <==> old(self).index_mem(o, x) || (o == owner@ && x == id@),
    {
        if self.records.contains_key(id) {
            return Err(RegistryError::DuplicateId);
        }
        let cloned_owner = owner.clone();
        self.records.insert(id.clone(), cloned_owner);
        self.metadata.insert(id.clone(), m);
        proof {
            assert(!old(self).index_mem(owner@, id@));
        }
        self.by_owner.add(owner, id);
        proof {
            assert(final(self).owners().dom() =~= final(self).metas().dom());
            assert forall|o: Seq<char>, x: Seq<char>| #[trigger] final(self).index_mem(o, x)
                <==> old(self).index_mem(o, x) || (o == owner@ && x == id@) by {
                assert(self.by_owner.mem(o, x)
                    == (old(self).by_owner.mem(o, x) || (o == owner@ && x == id@)));
                assert(old(self).index_mem(o, x) == old(self).by_owner.mem(o, x));
            }
            assert forall|o: Seq<char>, x: Seq<char>| #[trigger] final(self).index_mem(o, x) implies
                final(self).owners().contains_key(x) && final(self).owners()[x]@ == o by {
                assert(self.by_owner.mem(o, x)
                    == (old(self).by_owner.mem(o, x) || (o == owner@ && x == id@)));
                assert(old(self).index_mem(o, x) == old(self).by_owner.mem(o, x));
                if x == id@ {
                    assert(!old(self).index_mem(o, x));
                } else {
                    assert(old(self).index_mem(o, x));
                }
            }
            assert forall|o: Seq<char>, x: Seq<char>|
                final(self).owners().contains_key(x) && final(self).owners()[x]@ == o implies
                #[trigger] final(self).index_mem(o, x) by {
                assert(self.by_owner.mem(o, x)
                    == (old(self).by_owner.mem(o, x) || (o == owner@ && x == id@)));
                assert(old(self).index_mem(o, x) == old(self).by_owner.mem(o, x));
                if x != id@ {
                    assert(old(self).index_mem(o, x));
                }
            }
        }
        Ok(())
    }

    /// Replace the metadata payload of the existing entity `id`.
    pub fn update_meta(&mut self, id: &String, m: M)
        requires
            old(self).wf(),
            old(self).has(id@),
        ensures
            final(self).wf(),
            final(self).owners() == old(self).owners(),
            final(self).owner_index() == old(self).owner_index(),
            final(self).metas() == old(self).metas().insert(id@, m),
    {
        let _ = self.metadata.insert(id.clone(), m);
        proof {
            assert(final(self).owners().dom() =~= final(self).metas().dom());
            assert forall|o: Seq<char>, x: Seq<char>|
                #[trigger] final(self).index_mem(o, x) == old(self).index_mem(o, x) by {}
            assert forall|o: Seq<char>| #[trigger] final(self).owner_index().contains_key(o)
                implies final(self).owner_index()[o].len() > 0 by {
                assert(old(self).owner_index().contains_key(o));
            }
        }
    }

    /// Delete the existing entity `id`: record and metadata are removed
    /// together and the id leaves its owner's index set (which is dropped
    /// entirely when it was the last member).  Returns the owner the
    /// entity had.
    pub fn remove_entity(&mut self, id: &String) -> (r: String)
        requires
            old(self).wf(),
            old(self).has(id@),
        ensures
            final(self).wf(),
            r == old(self).owners()[id@],
            final(self).owners() == old(self).owners().remove(id@),
            final(self).metas() == old(self).metas().remove(id@),
            final(self).owner_index() == (if old(self).owner_index()[r@].len() == 1 {
                old(self).owner_index().remove(r@)
            } else {
                old(self).owner_index().insert(
                    r@,
                    old(self).owner_index()[r@].remove(idx_of(old(self).owner_index()[r@], id@)),
                )
            }),
            forall|o: Seq<char>, x: Seq<char>|
                #[trigger] final(self).index_mem(o, x)
                    <==> old(self).index_mem(o, x) && x != id@,
    {
        let owner = self.records.remove(id).unwrap();
        let _ = self.metadata.remove(id);
        proof {
            assert(old(self).index_mem(owner@, id@));
        }
        self.by_owner.remove(&owner, id);
        proof {
            assert(final(self).owners().dom() =~= final(self).metas().dom());
            assert forall|o: Seq<char>, x: Seq<char>| #[trigger] final(self).index_mem(o, x)
                implies old(self).index_mem(o, x) && x != id@ by {
                assert(self.by_owner.mem(o, x)
                    == (old(self).by_owner.mem(o, x) && !(o == owner@ && x == id@)));
                assert(old(self).index_mem(o, x) == old(self).by_owner.mem(o, x));
                if x == id@ && old(self).index_mem(o, x) {
                    assert(o == owner@);
                }
            }
            assert forall|o: Seq<char>, x: Seq<char>|
                old(self).index_mem(o, x) && x != id@ implies
                #[trigger] final(self).index_mem(o, x) by {
                assert(self.by_owner.mem(o, x)
                    == (old(self).by_owner.mem(o, x) && !(o == owner@ && x == id@)));
                assert(old(self).index_mem(o, x) == old(self).by_owner.mem(o, x));
            }
            assert forall|o: Seq<char>, x: Seq<char>| #[trigger] final(self).index_mem(o, x)
                implies final(self).owners().contains_key(x) && final(self).owners()[x]@ == o by {
                assert(old(self).index_mem(o, x));
            }
            assert forall|o: Seq<char>, x: Seq<char>|
                final(self).owners().contains_key(x) && final(self).owners()[x]@ == o implies
                #[trigger] final(self).index_mem(o, x) by {
                assert(old(self).index_mem(o, x));
            }
        }
        owner
    }

    /// Move the existing entity `id` from its current owner to
    /// `new_owner`: the record's owner is rewritten and the index
    /// membership moves between the two owners' sets.  The metadata is
    /// untouched.
    pub fn set_owner(&mut self, id: &String, new_owner: &String)
        requires
            old(self).wf(),
            old(self).has(id@),
            old(self).owners()[id@]@ != new_owner@,
        ensures
            final(self).wf(),
            final(self).owners() == old(self).owners().insert(id@, *new_owner),
            final(self).metas() == old(self).metas(),
            forall|o: Seq<char>, x: Seq<char>|
                #[trigger] final(self).index_mem(o, x)
                    <==> (old(self).index_mem(o, x) && x != id@) || (o == new_owner@ && x == id@),
    {
        let prev_owner = self.records.insert(id.clone(), new_owner.clone()).unwrap();
        proof {
            assert(old(self).index_mem(prev_owner@, id@));
        }
        self.by_owner.remove(&prev_owner, id);
        proof {
            assert(!(self.by_owner.mem(new_owner@, id@))) by {
                assert(self.by_owner.mem(new_owner@, id@)
                    == (old(self).by_owner.mem(new_owner@, id@)
                        && !(new_owner@ == prev_owner@ && id@ == id@)));
                if old(self).index_mem(new_owner@, id@) {
                    assert(old(self).owners()[id@]@ == new_owner@);
                }
                assert(old(self).index_mem(new_owner@, id@)
                    == old(self).by_owner.mem(new_owner@, id@));
            }
        }
        let ghost mid = self.by_owner;
        self.by_owner.add(new_owner, id);
        proof {
            assert(final(self).owners().dom() =~= final(self).metas().dom());
            assert forall|o: Seq<char>, x: Seq<char>| #[trigger] final(self).index_mem(o, x)
                <==> ((old(self).index_mem(o, x) && x != id@)
                    || (o == new_owner@ && x == id@)) by {
                assert(self.by_owner.mem(o, x)
                    == (mid.mem(o, x) || (o == new_owner@ && x == id@)));
                assert(mid.mem(o, x)
                    == (old(self).by_owner.mem(o, x) && !(o == prev_owner@ && x == id@)));
                assert(old(self).index_mem(o, x) == old(self).by_owner.mem(o, x));
                if x == id@ && old(self).index_mem(o, x) {
                    assert(o == prev_owner@);
                }
            }
            assert forall|o: Seq<char>, x: Seq<char>| #[trigger] final(self).index_mem(o, x)
                implies final(self).owners().contains_key(x) && final(self).owners()[x]@ == o by {
                if !(o == new_owner@ && x == id@) {
                    assert(old(self).index_mem(o, x) && x != id@);
                }
            }
            assert forall|o: Seq<char>, x: Seq<char>|
                final(self).owners().contains_key(x) && final(self).owners()[x]@ == o implies
                #[trigger] final(self).index_mem(o, x) by {
                if x != id@ {
                    assert(old(self).index_mem(o, x));
                }
            }
        }
    }

    /// The ids owned by `owner` from position `start`, at most `limit` of
    /// them, in the index's stable enumeration order.  An owner with no
    /// entities yields an empty listing.
    pub fn list_ids(&self, owner: &String, start: u64, limit: u64) -> (r: Vec<String>)
        requires
            self.wf(),
        ensures
            r.deep_view() == page(
                if self.owner_index().contains_key(owner@) {
                    self.owner_index()[owner@]
                } else {
                    Seq::empty()
                },
                start as nat,
                limit as nat,
            ),
    {
        self.by_owner.list(owner, start, limit)
    }
}

} // verus!
