//! The failure taxonomy of the registry.
//!
//! Every mutating operation either completes in full or fails with one of
//! these errors while leaving the registry untouched.

use vstd::prelude::*;

verus! {

/// Why a registry operation was refused.  A failed operation has no
/// observable effect: no record, metadata or index entry is mutated and no
/// payment is settled.
#[derive(Clone, Copy, Debug, PartialEq, Eq, Structural)]
pub enum RegistryError {
    /// A create targeted an id that already has a record.
    DuplicateId,
    /// An update, delete or transfer targeted an id with no record.
    NotFound,
    /// The caller failed the ownership or provider check.
    Unauthorized,
    /// The attached payment does not cover the storage the mutation grows.
    InsufficientPayment,
    /// The attached payment violates the operation's payment policy.
    PaymentPolicyViolation,
    /// A transfer named the current owner as the receiver.
    SelfTransfer,
    /// A category delete was blocked because tokens still reference it.
    NonEmptyCategory,
    /// An internal index invariant was found violated.  Unreachable through
    /// the verified operations; kept so the taxonomy is complete for hosts.
    IndexInconsistency,
}

impl RegistryError {
    /// A short description of the failed precondition, for the host's abort
    /// message.
    pub fn message(&self) -> (r: &'static str)
    {
        match self {
            RegistryError::DuplicateId => "id already exists",
            RegistryError::NotFound => "no such record",
            RegistryError::Unauthorized => "caller is not authorized",
            RegistryError::InsufficientPayment => "attached payment does not cover storage",
            RegistryError::PaymentPolicyViolation => "attached payment violates the payment policy",
            RegistryError::SelfTransfer => "receiver already owns the token",
            RegistryError::NonEmptyCategory => "category still has tokens",
            RegistryError::IndexInconsistency => "internal index inconsistency",
        }
    }
}

} // verus!
