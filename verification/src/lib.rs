//! A deterministic entity registry with secondary indices and storage
//! accounting.
//!
//! The crate models two registries: a job registry (`career`) and a
//! certificate registry (`cert`) that manages categories and certificate
//! tokens.  Every state-changing operation validates authorization, keeps the
//! primary stores and the owner/category indices mutually consistent, settles
//! the caller's attached payment against the storage the mutation consumed or
//! released, and describes the change with a structured audit event.  The
//! host environment (caller identity, attached payment, storage pricing,
//! clock, outgoing transfers) is injected through [`context::CallContext`]
//! and the returned receipts, so the whole registry is a pure, verified
//! state-transition function.

pub mod accounting;
pub mod career;
pub mod career_events;
pub mod category;
pub mod cert;
pub mod cert_events;
pub mod context;
pub mod decimal;
pub mod entity_store;
pub mod errors;
pub mod index_map;
pub mod job;
pub mod jsontext;
pub mod laws;
pub mod metadata;
pub mod strbuild;
pub mod strmap;
