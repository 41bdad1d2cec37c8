//! Job records and metadata.
//!
//! A job is a primary record (its owner) paired one-to-one with a mutable
//! metadata payload.  Job ids are caller-supplied strings, unique among
//! live jobs and reusable after deletion.

use vstd::prelude::*;
use crate::accounting::{spec_opt_str_units, spec_opt_u64_units, opt_str_units, opt_u64_units,
    meta_units_bound, entry_units_bound, ENTRY_OVERHEAD_UNITS};
use crate::strbuild::clone_opt_str;

verus! {

/// A job id: a caller-supplied string.  No format is imposed — any
/// string, the empty one included, is a valid id.
pub type JobId = String;

/// The mutable payload of a job.  `issued_at` and `updated_at` are stamped
/// by the registry from the host clock, never taken from the caller.  The
/// hash field carries the base64 text of a sha256 digest, opaquely.
#[derive(Clone, Debug, PartialEq, Eq)]
pub struct JobMetadata {
    /// When the job was created, Unix epoch milliseconds.
    pub issued_at: Option<u64>,
    /// When the job was last updated, Unix epoch milliseconds.
    pub updated_at: Option<u64>,
    /// Anything extra the job stores on-chain; may be stringified JSON.
    pub extra: Option<String>,
    /// URL to an off-chain JSON file with more info.
    pub reference: Option<String>,
    /// Base64 text of the sha256 hash of the JSON behind `reference`.
    pub reference_hash: Option<String>,
}

/// The primary record of a job.
#[derive(Clone, Debug, PartialEq, Eq)]
pub struct Job {
    /// Owner of the job.
    pub owner_id: String,
}

/// The joined view of a job returned from queries.
#[derive(Clone, Debug, PartialEq, Eq)]
pub struct JsonJob {
    /// The job id.
    pub job_id: JobId,
    /// Owner of the job.
    pub owner_id: String,
    /// The job's metadata payload.
    pub metadata: JobMetadata,
}

/// The metadata as stamped at creation time: both timestamps set to `now`,
/// the payload fields taken from the caller.
pub open spec fn spec_job_meta_stamped(m: JobMetadata, now: u64) -> JobMetadata {
    JobMetadata {
        issued_at: Some(now),
        updated_at: Some(now),
        extra: m.extra,
        reference: m.reference,
        reference_hash: m.reference_hash,
    }
}

/// The stored metadata after an update: the allow-listed fields (`extra`,
/// `reference`, `reference_hash`) replaced from the caller's input,
/// `issued_at` preserved, `updated_at` overwritten with `now`.
pub open spec fn spec_job_meta_updated(stored: JobMetadata, input: JobMetadata, now: u64)
    -> JobMetadata {
    JobMetadata {
        issued_at: stored.issued_at,
        updated_at: Some(now),
        extra: input.extra,
        reference: input.reference,
        reference_hash: input.reference_hash,
    }
}

/// Storage units of the metadata payload.
pub open spec fn spec_job_meta_units(m: JobMetadata) -> nat {
    spec_opt_u64_units(m.issued_at) + spec_opt_u64_units(m.updated_at)
        + spec_opt_str_units(m.extra) + spec_opt_str_units(m.reference)
        + spec_opt_str_units(m.reference_hash)
}

/// Storage units of a whole job entry: the record, the metadata entry and
/// the owner-index membership, each with its fixed overhead.
pub open spec fn spec_job_entry_units(id: Seq<char>, owner: Seq<char>, m: JobMetadata) -> nat {
    3 * id.len() + owner.len() + spec_job_meta_units(m) + 3 * (ENTRY_OVERHEAD_UNITS as nat)
}

impl JobMetadata {
    /// An equal copy of the payload.
    pub fn duplicate(&self) -> (r: JobMetadata)
        ensures
            r == *self,
    {
        JobMetadata {
            issued_at: self.issued_at,
            updated_at: self.updated_at,
            extra: clone_opt_str(&self.extra),
            reference: clone_opt_str(&self.reference),
            reference_hash: clone_opt_str(&self.reference_hash),
        }
    }

    /// The creation-time stamping of this payload.
    pub fn stamped(&self, now: u64) -> (r: JobMetadata)
        ensures
            r == spec_job_meta_stamped(*self, now),
    {
        JobMetadata {
            issued_at: Some(now),
            updated_at: Some(now),
            extra: clone_opt_str(&self.extra),
            reference: clone_opt_str(&self.reference),
            reference_hash: clone_opt_str(&self.reference_hash),
        }
    }

    /// The stored payload after applying the caller's `input` to the
    /// allow-listed fields.
    pub fn with_update(&self, input: &JobMetadata, now: u64) -> (r: JobMetadata)
        ensures
            r == spec_job_meta_updated(*self, *input, now),
    {
        JobMetadata {
            issued_at: self.issued_at,
            updated_at: Some(now),
            extra: clone_opt_str(&input.extra),
            reference: clone_opt_str(&input.reference),
            reference_hash: clone_opt_str(&input.reference_hash),
        }
    }

    /// Measure the payload in storage units.
    pub fn units(&self) -> (r: u128)
        ensures
            r as nat == spec_job_meta_units(*self),
            r as nat <= meta_units_bound(),
    {
        opt_u64_units(&self.issued_at) + opt_u64_units(&self.updated_at)
            + opt_str_units(&self.extra) + opt_str_units(&self.reference)
            + opt_str_units(&self.reference_hash)
    }
}

/// Measure a whole job entry in storage units.
pub fn job_entry_units(id: &String, owner: &String, m: &JobMetadata) -> (r: u128)
    ensures
        r as nat == spec_job_entry_units(id@, owner@, *m),
        r as nat <= entry_units_bound(),
{
    let idu = id.as_str().unicode_len() as u128;
    let ownu = owner.as_str().unicode_len() as u128;
    3 * idu + ownu + m.units() + 3 * ENTRY_OVERHEAD_UNITS
}

} // verus!
