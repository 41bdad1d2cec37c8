//! Certificate token records and metadata, and the registry-wide
//! contract metadata.
//!
//! A token is a primary record (its owner and the category it was minted
//! into) paired one-to-one with a mutable metadata payload.  Token ids are
//! system-assigned from a monotonically increasing counter and are never
//! reused.

use vstd::prelude::*;
use crate::accounting::{spec_opt_str_units, spec_opt_u64_units, opt_str_units, opt_u64_units,
    meta_units_bound, entry_units_bound, ENTRY_OVERHEAD_UNITS};
use crate::category::CategoryId;
use crate::strbuild::clone_opt_str;

verus! {

/// A token id: the decimal rendering of the mint counter.
pub type TokenId = String;

/// Descriptive metadata of the whole certificate registry.
#[derive(Clone, Debug, PartialEq, Eq)]
pub struct NFTContractMetadata {
    /// A version tag of the metadata standard in use.
    pub spec: String,
    /// Human-readable name of the registry.
    pub name: String,
    /// Short symbol of the registry.
    pub symbol: String,
    /// Data URL of an icon.
    pub icon: Option<String>,
    /// Centralized gateway for decentralized storage assets.
    pub base_uri: Option<String>,
    /// URL to a JSON file with more info.
    pub reference: Option<String>,
    /// Base64 text of the sha256 hash of the JSON behind `reference`.
    pub reference_hash: Option<String>,
}

/// The mutable payload of a token.  `issued_at` and `updated_at` are
/// stamped by the registry from the host clock, never taken from the
/// caller.  Hash fields carry the base64 text of sha256 digests, opaquely.
#[derive(Clone, Debug, PartialEq, Eq)]
pub struct TokenMetadata {
    /// Display title of the token.
    pub title: Option<String>,
    /// Free-form description.
    pub description: Option<String>,
    /// URL to associated media.
    pub media: Option<String>,
    /// Base64 text of the sha256 hash of the content behind `media`.
    pub media_hash: Option<String>,
    /// Number of copies of this metadata in existence at mint time.
    pub copies: Option<u64>,
    /// When the token was minted, Unix epoch milliseconds.
    pub issued_at: Option<u64>,
    /// When the token expires, Unix epoch milliseconds.
    pub expires_at: Option<u64>,
    /// When the token starts being valid, Unix epoch milliseconds.
    pub starts_at: Option<u64>,
    /// When the token was last updated, Unix epoch milliseconds.
    pub updated_at: Option<u64>,
    /// Anything extra the token stores on-chain.
    pub extra: Option<String>,
    /// URL to an off-chain JSON file with more info.
    pub reference: Option<String>,
    /// Base64 text of the sha256 hash of the JSON behind `reference`.
    pub reference_hash: Option<String>,
}

/// The primary record of a token.
#[derive(Clone, Debug, PartialEq, Eq)]
pub struct Token {
    /// Current owner of the token.
    pub owner_id: String,
    /// The category the token was minted into; never changes.
    pub category_id: CategoryId,
}

/// The joined view of a token returned from queries.
#[derive(Clone, Debug, PartialEq, Eq)]
pub struct JsonToken {
    /// The token id.
    pub token_id: TokenId,
    /// Current owner of the token.
    pub owner_id: String,
    /// The category the token was minted into.
    pub category_id: CategoryId,
    /// The token's metadata payload.
    pub metadata: TokenMetadata,
}

/// Access to the registry-wide contract metadata.
pub trait NonFungibleTokenMetadata {
    /// What the contract metadata is, as a specification-level value.
    spec fn spec_nft_metadata(&self) -> NFTContractMetadata;

    /// The registry-wide contract metadata.
    fn nft_metadata(&self) -> (r: NFTContractMetadata)
        ensures
            r == self.spec_nft_metadata(),
    ;
}

/// The metadata as stamped at mint time: `issued_at` and `updated_at` set
/// to `now`, the payload fields taken from the caller.
pub open spec fn spec_token_meta_stamped(m: TokenMetadata, now: u64) -> TokenMetadata {
    TokenMetadata {
        title: m.title,
        description: m.description,
        media: m.media,
        media_hash: m.media_hash,
        copies: m.copies,
        issued_at: Some(now),
        expires_at: m.expires_at,
        starts_at: m.starts_at,
        updated_at: Some(now),
        extra: m.extra,
        reference: m.reference,
        reference_hash: m.reference_hash,
    }
}

/// The stored metadata after an update: the allow-listed fields (`title`,
/// `description`, `media`, `media_hash`, `expires_at`, `starts_at`,
/// `extra`, `reference`, `reference_hash`) replaced from the caller's
/// input; `issued_at` and `copies` preserved; `updated_at` overwritten
/// with `now`.
pub open spec fn spec_token_meta_updated(stored: TokenMetadata, input: TokenMetadata, now: u64)
    -> TokenMetadata {
    TokenMetadata {
        title: input.title,
        description: input.description,
        media: input.media,
        media_hash: input.media_hash,
        copies: stored.copies,
        issued_at: stored.issued_at,
        expires_at: input.expires_at,
        starts_at: input.starts_at,
        updated_at: Some(now),
        extra: input.extra,
        reference: input.reference,
        reference_hash: input.reference_hash,
    }
}

/// Storage units of the metadata payload.
pub open spec fn spec_token_meta_units(m: TokenMetadata) -> nat {
    spec_opt_str_units(m.title) + spec_opt_str_units(m.description)
        + spec_opt_str_units(m.media) + spec_opt_str_units(m.media_hash)
        + spec_opt_u64_units(m.copies) + spec_opt_u64_units(m.issued_at)
        + spec_opt_u64_units(m.expires_at) + spec_opt_u64_units(m.starts_at)
        + spec_opt_u64_units(m.updated_at) + spec_opt_str_units(m.extra)
        + spec_opt_str_units(m.reference) + spec_opt_str_units(m.reference_hash)
}

/// Storage units of a whole token entry: the record (owner and category),
/// the metadata entry, the category binding and the two index
/// memberships, each with its fixed overhead.
pub open spec fn spec_token_entry_units(
    id: Seq<char>,
    owner: Seq<char>,
    category: Seq<char>,
    m: TokenMetadata,
) -> nat {
    5 * id.len() + owner.len() + 2 * category.len() + spec_token_meta_units(m)
        + 5 * (ENTRY_OVERHEAD_UNITS as nat)
}

impl NFTContractMetadata {
    /// An equal copy of the contract metadata.
    pub fn duplicate(&self) -> (r: NFTContractMetadata)
        ensures
            r == *self,
    {
        NFTContractMetadata {
            spec: self.spec.clone(),
            name: self.name.clone(),
            symbol: self.symbol.clone(),
            icon: clone_opt_str(&self.icon),
            base_uri: clone_opt_str(&self.base_uri),
            reference: clone_opt_str(&self.reference),
            reference_hash: clone_opt_str(&self.reference_hash),
        }
    }
}

impl TokenMetadata {
    /// An equal copy of the payload.
    pub fn duplicate(&self) -> (r: TokenMetadata)
        ensures
            r == *self,
    {
        TokenMetadata {
            title: clone_opt_str(&self.title),
            description: clone_opt_str(&self.description),
            media: clone_opt_str(&self.media),
            media_hash: clone_opt_str(&self.media_hash),
            copies: self.copies,
            issued_at: self.issued_at,
            expires_at: self.expires_at,
            starts_at: self.starts_at,
            updated_at: self.updated_at,
            extra: clone_opt_str(&self.extra),
            reference: clone_opt_str(&self.reference),
            reference_hash: clone_opt_str(&self.reference_hash),
        }
    }

    /// The mint-time stamping of this payload.
    pub fn stamped(&self, now: u64) -> (r: TokenMetadata)
        ensures
            r == spec_token_meta_stamped(*self, now),
    {
        TokenMetadata {
            title: clone_opt_str(&self.title),
            description: clone_opt_str(&self.description),
            media: clone_opt_str(&self.media),
            media_hash: clone_opt_str(&self.media_hash),
            copies: self.copies,
            issued_at: Some(now),
            expires_at: self.expires_at,
            starts_at: self.starts_at,
            updated_at: Some(now),
            extra: clone_opt_str(&self.extra),
            reference: clone_opt_str(&self.reference),
            reference_hash: clone_opt_str(&self.reference_hash),
        }
    }

    /// The stored payload after applying the caller's `input` to the
    /// allow-listed fields.
    pub fn with_update(&self, input: &TokenMetadata, now: u64) -> (r: TokenMetadata)
        ensures
            r == spec_token_meta_updated(*self, *input, now),
    {
        TokenMetadata {
            title: clone_opt_str(&input.title),
            description: clone_opt_str(&input.description),
            media: clone_opt_str(&input.media),
            media_hash: clone_opt_str(&input.media_hash),
            copies: self.copies,
            issued_at: self.issued_at,
            expires_at: input.expires_at,
            starts_at: input.starts_at,
            updated_at: Some(now),
            extra: clone_opt_str(&input.extra),
            reference: clone_opt_str(&input.reference),
            reference_hash: clone_opt_str(&input.reference_hash),
        }
    }

    /// Measure the payload in storage units.
    pub fn units(&self) -> (r: u128)
        ensures
            r as nat == spec_token_meta_units(*self),
            r as nat <= meta_units_bound(),
    {
        opt_str_units(&self.title) + opt_str_units(&self.description)
            + opt_str_units(&self.media) + opt_str_units(&self.media_hash)
            + opt_u64_units(&self.copies) + opt_u64_units(&self.issued_at)
            + opt_u64_units(&self.expires_at) + opt_u64_units(&self.starts_at)
            + opt_u64_units(&self.updated_at) + opt_str_units(&self.extra)
            + opt_str_units(&self.reference) + opt_str_units(&self.reference_hash)
    }
}

impl Token {
    /// An equal copy of the record.
    pub fn duplicate(&self) -> (r: Token)
        ensures
            r == *self,
    {
        Token {
            owner_id: self.owner_id.clone(),
            category_id: self.category_id.clone(),
        }
    }
}

/// Measure a whole token entry in storage units.
pub fn token_entry_units(id: &String, owner: &String, category: &String, m: &TokenMetadata)
    -> (r: u128)
    ensures
        r as nat == spec_token_entry_units(id@, owner@, category@, *m),
        r as nat <= entry_units_bound(),
{
    let idu = id.as_str().unicode_len() as u128;
    let ownu = owner.as_str().unicode_len() as u128;
    let catu = category.as_str().unicode_len() as u128;
    5 * idu + ownu + 2 * catu + m.units() + 5 * ENTRY_OVERHEAD_UNITS
}

} // verus!
