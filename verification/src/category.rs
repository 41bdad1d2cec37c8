//! Category records and metadata.
//!
//! A category is a primary record (its owner) paired one-to-one with a
//! mutable metadata payload.  Category ids are caller-supplied strings,
//! unique among live categories and reusable after deletion.  Certificate
//! tokens are minted into categories, and a category with live tokens
//! cannot be deleted.

use vstd::prelude::*;
use crate::accounting::{spec_opt_str_units, spec_opt_u64_units, opt_str_units, opt_u64_units,
    meta_units_bound, entry_units_bound, ENTRY_OVERHEAD_UNITS};
use crate::strbuild::clone_opt_str;

verus! {

/// A category id: a caller-supplied string.  No format is imposed — any
/// string, the empty one included, is a valid id.
pub type CategoryId = String;

/// The mutable payload of a category.  `issued_at` and `updated_at` are
/// stamped by the registry from the host clock, never taken from the
/// caller.  Hash fields carry the base64 text of sha256 digests, opaquely.
#[derive(Clone, Debug, PartialEq, Eq)]
pub struct CategoryMetadata {
    /// Display title of the category.
    pub title: Option<String>,
    /// Free-form description.
    pub description: Option<String>,
    /// URL to associated media.
    pub media: Option<String>,
    /// Base64 text of the sha256 hash of the content behind `media`.
    pub media_hash: Option<String>,
    /// When the category was created, Unix epoch milliseconds.
    pub issued_at: Option<u64>,
    /// When the category was last updated, Unix epoch milliseconds.
    pub updated_at: Option<u64>,
    /// Stringified JSON describing the category's field schema.
    pub fields: Option<String>,
    /// Anything extra the category stores on-chain.
    pub extra: Option<String>,
    /// URL to an off-chain JSON file with more info.
    pub reference: Option<String>,
    /// Base64 text of the sha256 hash of the JSON behind `reference`.
    pub reference_hash: Option<String>,
}

/// The primary record of a category.
#[derive(Clone, Debug, PartialEq, Eq)]
pub struct Category {
    /// Owner of the category.
    pub owner_id: String,
}

/// The joined view of a category returned from queries.
#[derive(Clone, Debug, PartialEq, Eq)]
pub struct JsonCategory {
    /// The category id.
    pub category_id: CategoryId,
    /// Owner of the category.
    pub owner_id: String,
    /// The category's metadata payload.
    pub metadata: CategoryMetadata,
}

/// The metadata as stamped at creation time: both timestamps set to
/// `now`, the payload fields taken from the caller.
pub open spec fn spec_category_meta_stamped(m: CategoryMetadata, now: u64) -> CategoryMetadata {
    CategoryMetadata {
        title: m.title,
        description: m.description,
        media: m.media,
        media_hash: m.media_hash,
        issued_at: Some(now),
        updated_at: Some(now),
        fields: m.fields,
        extra: m.extra,
        reference: m.reference,
        reference_hash: m.reference_hash,
    }
}

/// The stored metadata after an update: the allow-listed fields (`title`,
/// `description`, `media`, `media_hash`, `extra`, `reference`,
/// `reference_hash`) replaced from the caller's input; `issued_at` and
/// `fields` preserved; `updated_at` overwritten with `now`.
pub open spec fn spec_category_meta_updated(
    stored: CategoryMetadata,
    input: CategoryMetadata,
    now: u64,
) -> CategoryMetadata {
    CategoryMetadata {
        title: input.title,
        description: input.description,
        media: input.media,
        media_hash: input.media_hash,
        issued_at: stored.issued_at,
        updated_at: Some(now),
        fields: stored.fields,
        extra: input.extra,
        reference: input.reference,
        reference_hash: input.reference_hash,
    }
}

/// Storage units of the metadata payload.
pub open spec fn spec_category_meta_units(m: CategoryMetadata) -> nat {
    spec_opt_str_units(m.title) + spec_opt_str_units(m.description)
        + spec_opt_str_units(m.media) + spec_opt_str_units(m.media_hash)
        + spec_opt_u64_units(m.issued_at) + spec_opt_u64_units(m.updated_at)
        + spec_opt_str_units(m.fields) + spec_opt_str_units(m.extra)
        + spec_opt_str_units(m.reference) + spec_opt_str_units(m.reference_hash)
}

/// Storage units of a whole category entry: the record, the metadata
/// entry and the owner-index membership, each with its fixed overhead.
pub open spec fn spec_category_entry_units(id: Seq<char>, owner: Seq<char>, m: CategoryMetadata)
    -> nat {
    3 * id.len() + owner.len() + spec_category_meta_units(m) + 3 * (ENTRY_OVERHEAD_UNITS as nat)
}

impl CategoryMetadata {
    /// An equal copy of the payload.
    pub fn duplicate(&self) -> (r: CategoryMetadata)
        ensures
            r == *self,
    {
        CategoryMetadata {
            title: clone_opt_str(&self.title),
            description: clone_opt_str(&self.description),
            media: clone_opt_str(&self.media),
            media_hash: clone_opt_str(&self.media_hash),
            issued_at: self.issued_at,
            updated_at: self.updated_at,
            fields: clone_opt_str(&self.fields),
            extra: clone_opt_str(&self.extra),
            reference: clone_opt_str(&self.reference),
            reference_hash: clone_opt_str(&self.reference_hash),
        }
    }

    /// The creation-time stamping of this payload.
    pub fn stamped(&self, now: u64) -> (r: CategoryMetadata)
        ensures
            r == spec_category_meta_stamped(*self, now),
    {
        CategoryMetadata {
            title: clone_opt_str(&self.title),
            description: clone_opt_str(&self.description),
            media: clone_opt_str(&self.media),
            media_hash: clone_opt_str(&self.media_hash),
            issued_at: Some(now),
            updated_at: Some(now),
            fields: clone_opt_str(&self.fields),
            extra: clone_opt_str(&self.extra),
            reference: clone_opt_str(&self.reference),
            reference_hash: clone_opt_str(&self.reference_hash),
        }
    }

    /// The stored payload after applying the caller's `input` to the
    /// allow-listed fields.
    pub fn with_update(&self, input: &CategoryMetadata, now: u64) -> (r: CategoryMetadata)
        ensures
            r == spec_category_meta_updated(*self, *input, now),
    {
        CategoryMetadata {
            title: clone_opt_str(&input.title),
            description: clone_opt_str(&input.description),
            media: clone_opt_str(&input.media),
            media_hash: clone_opt_str(&input.media_hash),
            issued_at: self.issued_at,
            updated_at: Some(now),
            fields: clone_opt_str(&self.fields),
            extra: clone_opt_str(&input.extra),
            reference: clone_opt_str(&input.reference),
            reference_hash: clone_opt_str(&input.reference_hash),
        }
    }

    /// Measure the payload in storage units.
    pub fn units(&self) -> (r: u128)
        ensures
            r as nat == spec_category_meta_units(*self),
            r as nat <= meta_units_bound(),
    {
        opt_str_units(&self.title) + opt_str_units(&self.description)
            + opt_str_units(&self.media) + opt_str_units(&self.media_hash)
            + opt_u64_units(&self.issued_at) + opt_u64_units(&self.updated_at)
            + opt_str_units(&self.fields) + opt_str_units(&self.extra)
            + opt_str_units(&self.reference) + opt_str_units(&self.reference_hash)
    }
}

/// Measure a whole category entry in storage units.
pub fn category_entry_units(id: &String, owner: &String, m: &CategoryMetadata) -> (r: u128)
    ensures
        r as nat == spec_category_entry_units(id@, owner@, *m),
        r as nat <= entry_units_bound(),
{
    let idu = id.as_str().unicode_len() as u128;
    let ownu = owner.as_str().unicode_len() as u128;
    3 * idu + ownu + m.units() + 3 * ENTRY_OVERHEAD_UNITS
}

} // verus!
