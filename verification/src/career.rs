//! The job registry.
//!
//! One `Contract` value owns the whole job state: the job records, their
//! metadata and the per-owner index.  Every mutating operation checks the
//! payment policy and authorization before touching anything, keeps the
//! stores consistent, settles storage payment exactly, and hands back the
//! audit event and transfers for the host to perform.  A failed operation
//! returns its error with the state untouched.

use vstd::prelude::*;
use crate::accounting::{check_policy, settle, spec_settlement, PaymentPolicy, Settlement};
use crate::career_events::{EventLog, EventLogVariant, JobCreateLog, JobDeleteLog, JobUpdateLog};
use crate::context::CallContext;
use crate::entity_store::EntityStore;
use crate::errors::RegistryError;
use crate::index_map::page;
use crate::job::{job_entry_units, spec_job_entry_units, spec_job_meta_stamped,
    spec_job_meta_units, spec_job_meta_updated, Job, JobId, JobMetadata, JsonJob};

verus! {

/// What a completed job mutation settled and reported.
#[derive(Debug)]
pub struct Receipt {
    /// How the attached payment was settled; the host pays the refund and
    /// release transfers, if any, to the caller.
    pub settlement: Settlement,
    /// The audit event describing the mutation, for the host to log.
    pub event: EventLog,
}

/// The storage cost of creating `job_id` with `metadata` under the
/// calling context: the whole new entry, priced per unit.
pub open spec fn job_create_cost(ctx: CallContext, job_id: Seq<char>, metadata: JobMetadata)
    -> int {
    spec_job_entry_units(job_id, ctx.caller@, spec_job_meta_stamped(metadata, ctx.now_ms))
        * ctx.price_per_byte
}

/// Is `e` the audit event of creating job `id` for `owner`?
pub open spec fn is_job_create_event(
    e: EventLog,
    caller: Seq<char>,
    id: Seq<char>,
    m: JobMetadata,
) -> bool {
    &&& e.standard@ == "cecareer"@
    &&& e.version@ == "0.1.0"@
    &&& e.event matches EventLogVariant::JobCreate(v) && v@.len() == 1
        && (v@[0].authorized_id matches Some(a) && a@ == caller)
        && v@[0].owner_id@ == caller
        && v@[0].job_ids.deep_view() == seq![id]
        && v@[0].job_metadatas@ == seq![m]
}

/// Is `e` the audit event of updating job `id` from `old_m` to `new_m`?
pub open spec fn is_job_update_event(
    e: EventLog,
    caller: Seq<char>,
    id: Seq<char>,
    old_m: JobMetadata,
    new_m: JobMetadata,
) -> bool {
    &&& e.standard@ == "cecareer"@
    &&& e.version@ == "0.1.0"@
    &&& e.event matches EventLogVariant::JobUpdate(v) && v@.len() == 1
        && (v@[0].authorized_id matches Some(a) && a@ == caller)
        && v@[0].job_ids.deep_view() == seq![id]
        && v@[0].old_job_metadatas@ == seq![old_m]
        && v@[0].new_job_metadatas@ == seq![new_m]
}

/// Is `e` the audit event of deleting job `id`?
pub open spec fn is_job_delete_event(e: EventLog, caller: Seq<char>, id: Seq<char>) -> bool {
    &&& e.standard@ == "cecareer"@
    &&& e.version@ == "0.1.0"@
    &&& e.event matches EventLogVariant::JobDelete(v) && v@.len() == 1
        && (v@[0].authorized_id matches Some(a) && a@ == caller)
        && v@[0].job_ids.deep_view() == seq![id]
}

/// A one-element payload list.
fn single_create_log(l: JobCreateLog) -> (r: Vec<JobCreateLog>)
    ensures
        r@ == seq![l],
{
    let mut r: Vec<JobCreateLog> = Vec::new();
    r.push(l);
    proof {
        assert(r@ =~= seq![l]);
    }
    r
}

/// A one-element payload list.
fn single_update_log(l: JobUpdateLog) -> (r: Vec<JobUpdateLog>)
    ensures
        r@ == seq![l],
{
    let mut r: Vec<JobUpdateLog> = Vec::new();
    r.push(l);
    proof {
        assert(r@ =~= seq![l]);
    }
    r
}

/// A one-element payload list.
fn single_delete_log(l: JobDeleteLog) -> (r: Vec<JobDeleteLog>)
    ensures
        r@ == seq![l],
{
    let mut r: Vec<JobDeleteLog> = Vec::new();
    r.push(l);
    proof {
        assert(r@ =~= seq![l]);
    }
    r
}

/// The job registry: its administrative owner and the job store.
pub struct Contract {
    owner_id: String,
    jobs: EntityStore<JobMetadata>,
}

impl Contract {
    /// The job store, as a specification-level value.
    pub closed spec fn store(&self) -> EntityStore<JobMetadata> {
        self.jobs
    }

    /// The account that instantiated the registry.
    pub closed spec fn contract_owner(&self) -> Seq<char> {
        self.owner_id@
    }

    /// Well-formedness: the job store's invariants hold.
    pub open spec fn wf(&self) -> bool {
        self.store().wf()
    }

    /// Why `job_create` would be refused, if anything: the payment policy
    /// first, then the duplicate-id check, then coverage of the storage
    /// cost.
    pub open spec fn job_create_error(
        &self,
        ctx: CallContext,
        job_id: Seq<char>,
        metadata: JobMetadata,
    ) -> Option<RegistryError> {
        if ctx.attached < 1 {
            Some(RegistryError::PaymentPolicyViolation)
        } else if self.store().has(job_id) {
            Some(RegistryError::DuplicateId)
        } else if (ctx.attached as int) < job_create_cost(ctx, job_id, metadata) {
            Some(RegistryError::InsufficientPayment)
        } else {
            None
        }
    }

    /// Why `job_update` would be refused, if anything: the payment policy
    /// first, then existence, then ownership, then coverage of the
    /// storage growth.
    pub open spec fn job_update_error(
        &self,
        ctx: CallContext,
        job_id: Seq<char>,
        metadata: JobMetadata,
    ) -> Option<RegistryError> {
        if ctx.attached < 1 {
            Some(RegistryError::PaymentPolicyViolation)
        } else if !self.store().has(job_id) {
            Some(RegistryError::NotFound)
        } else if self.store().owners()[job_id]@ != ctx.caller@ {
            Some(RegistryError::Unauthorized)
        } else if (ctx.attached as int) < self.job_update_growth(ctx, job_id, metadata)
            * ctx.price_per_byte {
            Some(RegistryError::InsufficientPayment)
        } else {
            None
        }
    }

    /// The storage units a `job_update` grows (zero when it shrinks).
    pub open spec fn job_update_growth(
        &self,
        ctx: CallContext,
        job_id: Seq<char>,
        metadata: JobMetadata,
    ) -> int {
        let old_units = spec_job_meta_units(self.store().metas()[job_id]);
        let new_units = spec_job_meta_units(
            spec_job_meta_updated(self.store().metas()[job_id], metadata, ctx.now_ms),
        );
        if new_units > old_units {
            new_units - old_units
        } else {
            0
        }
    }

    /// The storage units a `job_update` frees (zero when it grows).
    pub open spec fn job_update_shrink(
        &self,
        ctx: CallContext,
        job_id: Seq<char>,
        metadata: JobMetadata,
    ) -> int {
        let old_units = spec_job_meta_units(self.store().metas()[job_id]);
        let new_units = spec_job_meta_units(
            spec_job_meta_updated(self.store().metas()[job_id], metadata, ctx.now_ms),
        );
        if old_units > new_units {
            old_units - new_units
        } else {
            0
        }
    }

    /// Why `job_delete` would be refused, if anything: the exact-payment
    /// policy first, then existence, then ownership.
    pub open spec fn job_delete_error(&self, ctx: CallContext, job_id: Seq<char>)
        -> Option<RegistryError> {
        if ctx.attached != 1 {
            Some(RegistryError::PaymentPolicyViolation)
        } else if !self.store().has(job_id) {
            Some(RegistryError::NotFound)
        } else if self.store().owners()[job_id]@ != ctx.caller@ {
            Some(RegistryError::Unauthorized)
        } else {
            None
        }
    }

    /// The storage units deleting `job_id` frees: its whole entry at its
    /// current metadata.
    pub open spec fn job_delete_freed(&self, job_id: Seq<char>) -> int {
        spec_job_entry_units(
            job_id,
            self.store().owners()[job_id]@,
            self.store().metas()[job_id],
        ) as int
    }

    /// An empty job registry administered by `owner_id`.
    pub fn new(owner_id: String) -> (r: Contract)
        ensures
            r.wf(),
            r.contract_owner() == owner_id@,
            r.store().owners() == Map::<Seq<char>, String>::empty(),
            r.store().metas() == Map::<Seq<char>, JobMetadata>::empty(),
            r.store().owner_index() == Map::<Seq<char>, Seq<Seq<char>>>::empty(),
    {
        Contract { owner_id, jobs: EntityStore::new() }
    }

    /// Create the job `job_id` owned by the caller, with `metadata`
    /// stamped at the host clock.  The caller pays for the stored bytes
    /// and is refunded the excess above the dust threshold.
    pub fn job_create(&mut self, ctx: &CallContext, job_id: JobId, metadata: JobMetadata)
        -> (r: Result<Receipt, RegistryError>)
        requires
            old(self).wf(),
            job_create_cost(*ctx, job_id@, metadata) <= u128::MAX,
        ensures
            final(self).wf(),
            r is Err <==> old(self).job_create_error(*ctx, job_id@, metadata) is Some,
            r matches Err(e) ==> Some(e) == old(self).job_create_error(*ctx, job_id@, metadata)
                && *final(self) == *old(self),
            r is Ok ==> final(self).store().owners()
                == old(self).store().owners().insert(job_id@, ctx.caller),
            r is Ok ==> final(self).store().metas()
                == old(self).store().metas().insert(
                    job_id@,
                    spec_job_meta_stamped(metadata, ctx.now_ms),
                ),
            r is Ok ==> final(self).store().owner_index()
                == old(self).store().owner_index().insert(
                    ctx.caller@,
                    if old(self).store().owner_index().contains_key(ctx.caller@) {
                        old(self).store().owner_index()[ctx.caller@].push(job_id@)
                    } else {
                        seq![job_id@]
                    },
                ),
            r matches Ok(rc) ==> rc.settlement == spec_settlement(
                spec_job_entry_units(
                    job_id@,
                    ctx.caller@,
                    spec_job_meta_stamped(metadata, ctx.now_ms),
                ) as u128,
                0,
                ctx.attached,
                ctx.price_per_byte,
            ),
            r matches Ok(rc) ==> is_job_create_event(rc.event, ctx.caller@, job_id@, (
                spec_job_meta_stamped(metadata, ctx.now_ms)
            )),
            r is Ok ==> final(self).contract_owner() == old(self).contract_owner(),
    {
        if let Err(e) = check_policy(PaymentPolicy::AtLeastOneUnit, ctx.attached) {
            return Err(e);
        }
        if self.jobs.contains(&job_id) {
            return Err(RegistryError::DuplicateId);
        }
        let stamped = metadata.stamped(ctx.now_ms);
        let units = job_entry_units(&job_id, &ctx.caller, &stamped);
        let settlement = match settle(units, 0, ctx.attached, ctx.price_per_byte) {
            Ok(s) => s,
            Err(e) => {
                return Err(e);
            },
        };
        let event_meta = stamped.duplicate();
        let created = self.jobs.create(&job_id, &ctx.caller, stamped);
        proof {
            assert(created is Ok);
        }
        let mut job_ids: Vec<JobId> = Vec::new();
        let mut job_metadatas: Vec<JobMetadata> = Vec::new();
        let ghost idv = job_id@;
        job_ids.push(job_id);
        job_metadatas.push(event_meta);
        proof {
            assert(job_ids.deep_view() =~= seq![idv]);
            assert(job_metadatas@ =~= seq![spec_job_meta_stamped(metadata, ctx.now_ms)]);
        }
        let event = EventLog {
            standard: "cecareer".to_owned(),
            version: "0.1.0".to_owned(),
            event: EventLogVariant::JobCreate(single_create_log(JobCreateLog {
                authorized_id: Some(ctx.caller.clone()),
                owner_id: ctx.caller.clone(),
                job_ids,
                job_metadatas,
            })),
        };
        Ok(Receipt { settlement, event })
    }

    /// Update the metadata of `job_id`: the caller must own the job; the
    /// allow-listed fields are replaced and `updated_at` is stamped.
    /// Storage growth is charged, shrinkage is released back to the
    /// caller.
    pub fn job_update(&mut self, ctx: &CallContext, job_id: JobId, metadata: JobMetadata)
        -> (r: Result<Receipt, RegistryError>)
        requires
            old(self).wf(),
            old(self).store().has(job_id@)
                ==> old(self).job_update_growth(*ctx, job_id@, metadata) * ctx.price_per_byte
                    <= u128::MAX,
            old(self).store().has(job_id@)
                ==> old(self).job_update_shrink(*ctx, job_id@, metadata) * ctx.price_per_byte
                    <= u128::MAX,
        ensures
            final(self).wf(),
            r is Err <==> old(self).job_update_error(*ctx, job_id@, metadata) is Some,
            r matches Err(e) ==> Some(e) == old(self).job_update_error(*ctx, job_id@, metadata)
                && *final(self) == *old(self),
            r is Ok ==> final(self).store().owners() == old(self).store().owners(),
            r is Ok ==> final(self).store().owner_index() == old(self).store().owner_index(),
            r is Ok ==> final(self).store().metas() == old(self).store().metas().insert(
                job_id@,
                spec_job_meta_updated(old(self).store().metas()[job_id@], metadata, ctx.now_ms),
            ),
            r matches Ok(rc) ==> rc.settlement == spec_settlement(
                old(self).job_update_growth(*ctx, job_id@, metadata) as u128,
                old(self).job_update_shrink(*ctx, job_id@, metadata) as u128,
                ctx.attached,
                ctx.price_per_byte,
            ),
            r matches Ok(rc) ==> is_job_update_event(
                rc.event,
                ctx.caller@,
                job_id@,
                old(self).store().metas()[job_id@],
                spec_job_meta_updated(old(self).store().metas()[job_id@], metadata, ctx.now_ms),
            ),
            r is Ok ==> final(self).contract_owner() == old(self).contract_owner(),
    {
        if let Err(e) = check_policy(PaymentPolicy::AtLeastOneUnit, ctx.attached) {
            return Err(e);
        }
        match self.jobs.owner_of(&job_id) {
            None => {
                return Err(RegistryError::NotFound);
            },
            Some(o) => {
                if !(*o == ctx.caller) {
                    return Err(RegistryError::Unauthorized);
                }
            },
        }
        let old_meta = match self.jobs.meta_of(&job_id) {
            Some(m) => m.duplicate(),
            None => {
                proof {
                    assert(false);
                }
                return Err(RegistryError::NotFound);
            },
        };
        let new_meta = old_meta.with_update(&metadata, ctx.now_ms);
        let old_units = old_meta.units();
        let new_units = new_meta.units();
        let growth: u128 = if new_units > old_units { new_units - old_units } else { 0 };
        let shrink: u128 = if old_units > new_units { old_units - new_units } else { 0 };
        let settlement = match settle(growth, shrink, ctx.attached, ctx.price_per_byte) {
            Ok(s) => s,
            Err(e) => {
                return Err(e);
            },
        };
        let stored_meta = new_meta.duplicate();
        self.jobs.update_meta(&job_id, stored_meta);
        let mut job_ids: Vec<JobId> = Vec::new();
        let mut old_job_metadatas: Vec<JobMetadata> = Vec::new();
        let mut new_job_metadatas: Vec<JobMetadata> = Vec::new();
        let ghost idv = job_id@;
        let ghost old_mv = old_meta;
        let ghost new_mv = new_meta;
        job_ids.push(job_id);
        old_job_metadatas.push(old_meta);
        new_job_metadatas.push(new_meta);
        proof {
            assert(job_ids.deep_view() =~= seq![idv]);
            assert(old_job_metadatas@ =~= seq![old_mv]);
            assert(new_job_metadatas@ =~= seq![new_mv]);
        }
        let event = EventLog {
            standard: "cecareer".to_owned(),
            version: "0.1.0".to_owned(),
            event: EventLogVariant::JobUpdate(single_update_log(JobUpdateLog {
                authorized_id: Some(ctx.caller.clone()),
                job_ids,
                old_job_metadatas,
                new_job_metadatas,
            })),
        };
        Ok(Receipt { settlement, event })
    }

    /// Delete the job `job_id`: the caller must own it and attach exactly
    /// one minimal unit.  Record, metadata and index membership are
    /// removed together and the freed storage value is released to the
    /// caller.
    pub fn job_delete(&mut self, ctx: &CallContext, job_id: JobId)
        -> (r: Result<Receipt, RegistryError>)
        requires
            old(self).wf(),
            old(self).store().has(job_id@)
                ==> old(self).job_delete_freed(job_id@) * ctx.price_per_byte <= u128::MAX,
        ensures
            final(self).wf(),
            r is Err <==> old(self).job_delete_error(*ctx, job_id@) is Some,
            r matches Err(e) ==> Some(e) == old(self).job_delete_error(*ctx, job_id@)
                && *final(self) == *old(self),
            r is Ok ==> final(self).store().owners()
                == old(self).store().owners().remove(job_id@),
            r is Ok ==> final(self).store().metas()
                == old(self).store().metas().remove(job_id@),
            r is Ok ==> forall|o: Seq<char>, x: Seq<char>|
                #[trigger] final(self).store().index_mem(o, x)
                    <==> old(self).store().index_mem(o, x) && x != job_id@,
            r matches Ok(rc) ==> rc.settlement == spec_settlement(
                0,
                old(self).job_delete_freed(job_id@) as u128,
                ctx.attached,
                ctx.price_per_byte,
            ),
            r matches Ok(rc) ==> is_job_delete_event(rc.event, ctx.caller@, job_id@),
            r is Ok ==> final(self).contract_owner() == old(self).contract_owner(),
    {
        if let Err(e) = check_policy(PaymentPolicy::ExactlyOneUnit, ctx.attached) {
            return Err(e);
        }
        let owner = match self.jobs.owner_of(&job_id) {
            None => {
                return Err(RegistryError::NotFound);
            },
            Some(o) => {
                if !(*o == ctx.caller) {
                    return Err(RegistryError::Unauthorized);
                }
                o.clone()
            },
        };
        let stored_meta = match self.jobs.meta_of(&job_id) {
            Some(m) => m.duplicate(),
            None => {
                proof {
                    assert(false);
                }
                return Err(RegistryError::NotFound);
            },
        };
        let freed = job_entry_units(&job_id, &owner, &stored_meta);
        let settlement = match settle(0, freed, ctx.attached, ctx.price_per_byte) {
            Ok(s) => s,
            Err(e) => {
                proof {
                    assert(false);
                }
                return Err(e);
            },
        };
        let _ = self.jobs.remove_entity(&job_id);
        let mut job_ids: Vec<JobId> = Vec::new();
        let ghost idv = job_id@;
        job_ids.push(job_id);
        proof {
            assert(job_ids.deep_view() =~= seq![idv]);
        }
        let event = EventLog {
            standard: "cecareer".to_owned(),
            version: "0.1.0".to_owned(),
            event: EventLogVariant::JobDelete(single_delete_log(JobDeleteLog {
                authorized_id: Some(ctx.caller.clone()),
                job_ids,
            })),
        };
        Ok(Receipt { settlement, event })
    }

    /// The primary record of `job_id` (its owner), if it exists.
    pub fn job_record(&self, job_id: &JobId) -> (r: Option<Job>)
        requires
            self.wf(),
        ensures
            r is Some <==> self.store().has(job_id@),
            r matches Some(j) ==> j.owner_id == self.store().owners()[job_id@],
    {
        match self.jobs.owner_of(job_id) {
            None => None,
            Some(o) => Some(Job { owner_id: o.clone() }),
        }
    }

    /// The joined record and metadata of `job_id`, if it exists.
    pub fn job_info(&self, job_id: JobId) -> (r: Option<JsonJob>)
        requires
            self.wf(),
        ensures
            r is Some <==> self.store().has(job_id@),
            r matches Some(j) ==> j.job_id == job_id
                && j.owner_id == self.store().owners()[job_id@]
                && j.metadata == self.store().metas()[job_id@],
    {
        let owner = match self.jobs.owner_of(&job_id) {
            None => {
                return None;
            },
            Some(o) => o.clone(),
        };
        let metadata = match self.jobs.meta_of(&job_id) {
            Some(m) => m.duplicate(),
            None => {
                proof {
                    assert(false);
                }
                return None;
            },
        };
        Some(JsonJob { job_id, owner_id: owner, metadata })
    }

    /// The jobs of `account_id`, joined with their metadata, paginated by
    /// `from_index` (default 0) and `limit` (default 50) over the index's
    /// stable enumeration order.  An owner with no jobs yields an empty
    /// listing.
    pub fn jobs_for_owner(
        &self,
        account_id: String,
        from_index: Option<u64>,
        limit: Option<u64>,
    ) -> (r: Vec<JsonJob>)
        requires
            self.wf(),
        ensures
            ({
                let ids = page(
                    if self.store().owner_index().contains_key(account_id@) {
                        self.store().owner_index()[account_id@]
                    } else {
                        Seq::empty()
                    },
                    from_index.unwrap_or(0) as nat,
                    limit.unwrap_or(50) as nat,
                );
                &&& r@.len() == ids.len()
                &&& forall|k: int| #![trigger r@[k]] 0 <= k < ids.len() ==> r@[k].job_id@
                    == ids[k]
                    && r@[k].owner_id == self.store().owners()[ids[k]]
                    && r@[k].metadata == self.store().metas()[ids[k]]
            }),
    {
        let start: u64 = match from_index {
            Some(s) => s,
            None => 0,
        };
        let lim: u64 = match limit {
            Some(l) => l,
            None => 50,
        };
        let ids = self.jobs.list_ids(&account_id, start, lim);
        let ghost idseq = ids.deep_view();
        let ghost full = if self.store().owner_index().contains_key(account_id@) {
            self.store().owner_index()[account_id@]
        } else {
            Seq::empty()
        };
        proof {
            assert forall|k: int| 0 <= k < idseq.len() implies
                #[trigger] self.store().has(idseq[k])
                    && self.store().owners()[idseq[k]]@ == account_id@ by {
                let start_i = start as int;
                assert(idseq[k] == full[start_i + k]);
                assert(full.contains(idseq[k]));
                assert(self.store().index_mem(account_id@, idseq[k]));
            }
        }
        let mut r: Vec<JsonJob> = Vec::new();
        let n = ids.len();
        let mut i: usize = 0;
        while i < n
            invariant
                self.wf(),
                n == ids@.len(),
                idseq == ids.deep_view(),
                idseq.len() == n as nat,
                forall|k: int| 0 <= k < idseq.len()
                    ==> #[trigger] self.store().has(idseq[k])
                        && self.store().owners()[idseq[k]]@ == account_id@,
                i <= n,
                r@.len() == i as nat,
                forall|k: int| #![trigger r@[k]] 0 <= k < i ==> r@[k].job_id@ == idseq[k]
                    && r@[k].owner_id == self.store().owners()[idseq[k]]
                    && r@[k].metadata == self.store().metas()[idseq[k]],
            decreases n - i,
        {
            let id = ids[i].clone();
            proof {
                assert(id@ == idseq[i as int]);
                assert(self.store().has(idseq[i as int]));
            }
            let owner = match self.jobs.owner_of(&id) {
                Some(o) => o.clone(),
                None => {
                    proof {
                        assert(false);
                    }
                    return r;
                },
            };
            let metadata = match self.jobs.meta_of(&id) {
                Some(m) => m.duplicate(),
                None => {
                    proof {
                        assert(false);
                    }
                    return r;
                },
            };
            r.push(JsonJob { job_id: id, owner_id: owner, metadata });
            i = i + 1;
        }
        proof {
            assert(start == from_index.unwrap_or(0));
            assert(lim == limit.unwrap_or(50));
            assert(idseq == page(full, from_index.unwrap_or(0) as nat,
                limit.unwrap_or(50) as nat));
        }
        r
    }
}

} // verus!
