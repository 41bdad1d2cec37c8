//! Storage accounting and payment settlement.
//!
//! Every mutation is measured in storage units (one unit per character or
//! byte of payload, plus a fixed overhead per stored entry).  A mutation
//! that grows storage must be covered by the caller's attached payment;
//! the excess is refunded when it exceeds the dust threshold.  A mutation
//! that frees storage returns the freed value to the caller as a release
//! transfer and never asks for more funds.

use vstd::prelude::*;
use crate::errors::RegistryError;

verus! {

/// Fixed accounting overhead of one stored entry (a record, a metadata
/// entry, or an index membership), in storage units.
pub const ENTRY_OVERHEAD_UNITS: u128 = 40;

/// A refund at or below this many minimal currency units is kept rather
/// than transferred, so the host never issues an unprofitable transfer.
pub const DUST_THRESHOLD: u128 = 1;

/// Which attached payments an operation admits.
#[derive(Clone, Copy, Debug, PartialEq, Eq, Structural)]
pub enum PaymentPolicy {
    /// Mutations that may grow storage: at least one minimal unit.
    AtLeastOneUnit,
    /// Pure deletions, which cannot net-increase storage: exactly one
    /// minimal unit, so a delete is never accidentally overpaid.
    ExactlyOneUnit,
}

/// Does `attached` satisfy the policy?
pub open spec fn policy_ok(p: PaymentPolicy, attached: u128) -> bool {
    match p {
        PaymentPolicy::AtLeastOneUnit => attached >= 1,
        PaymentPolicy::ExactlyOneUnit => attached == 1,
    }
}

/// Check the payment policy; a violation aborts the operation before any
/// mutation or measurement happens.
pub fn check_policy(p: PaymentPolicy, attached: u128) -> (r: Result<(), RegistryError>)
    ensures
        r is Ok <==> policy_ok(p, attached),
        r matches Err(e) ==> e == RegistryError::PaymentPolicyViolation,
{
    match p {
        PaymentPolicy::AtLeastOneUnit => {
            if attached >= 1 {
                Ok(())
            } else {
                Err(RegistryError::PaymentPolicyViolation)
            }
        },
        PaymentPolicy::ExactlyOneUnit => {
            if attached == 1 {
                Ok(())
            } else {
                Err(RegistryError::PaymentPolicyViolation)
            }
        },
    }
}

/// How a completed mutation settled the caller's attached payment.  Both
/// transfers, when present, are paid to the caller.
#[derive(Clone, Copy, Debug, PartialEq, Eq)]
pub struct Settlement {
    /// What the storage growth cost: grown units times the byte price.
    pub required_cost: u128,
    /// The refunded excess of the attached payment, when it exceeded the
    /// dust threshold.
    pub refund: Option<u128>,
    /// The value of freed storage returned to the caller, when the
    /// mutation freed any.
    pub release: Option<u128>,
}

/// The settlement owed for a mutation that grew storage by `growth` units
/// or freed `shrink` units (at most one of the two is non-zero), given the
/// caller attached `attached` and one unit costs `price`.  Meaningful when
/// the attached payment covers the growth.
pub open spec fn spec_settlement(growth: u128, shrink: u128, attached: u128, price: u128)
    -> Settlement {
    if growth > 0 {
        Settlement {
            required_cost: (growth * price) as u128,
            refund: if attached - growth * price > DUST_THRESHOLD {
                Some((attached - growth * price) as u128)
            } else {
                None
            },
            release: None,
        }
    } else {
        Settlement {
            required_cost: 0,
            refund: if attached > DUST_THRESHOLD {
                Some(attached)
            } else {
                None
            },
            release: if shrink > 0 {
                Some((shrink * price) as u128)
            } else {
                None
            },
        }
    }
}

/// Settle a mutation's storage delta against the attached payment.
///
/// Growth is charged: the attached payment must cover `growth * price`,
/// else the operation fails with `InsufficientPayment` (and the caller
/// rolls nothing forward).  The excess is refunded when above the dust
/// threshold.  Shrinkage is released: the freed value is returned to the
/// caller and nothing is required of the attached payment.
pub fn settle(growth: u128, shrink: u128, attached: u128, price: u128)
    -> (r: Result<Settlement, RegistryError>)
    requires
        growth == 0 || shrink == 0,
        growth * price <= u128::MAX,
        shrink * price <= u128::MAX,
    ensures
        r is Ok <==> (growth > 0 ==> attached >= growth * price),
        r matches Err(e) ==> e == RegistryError::InsufficientPayment,
        r matches Ok(s) ==> s == spec_settlement(growth, shrink, attached, price),
{
    if growth > 0 {
        let cost = growth * price;
        if attached < cost {
            return Err(RegistryError::InsufficientPayment);
        }
        let excess = attached - cost;
        Ok(Settlement {
            required_cost: cost,
            refund: if excess > DUST_THRESHOLD {
                Some(excess)
            } else {
                None
            },
            release: None,
        })
    } else {
        let released = shrink * price;
        Ok(Settlement {
            required_cost: 0,
            refund: if attached > DUST_THRESHOLD {
                Some(attached)
            } else {
                None
            },
            release: if shrink > 0 {
                Some(released)
            } else {
                None
            },
        })
    }
}

/// Storage units of an optional string payload field.
pub open spec fn spec_opt_str_units(o: Option<String>) -> nat {
    match o {
        Some(s) => s@.len() + 1,
        None => 0,
    }
}

/// Storage units of an optional integer payload field.
pub open spec fn spec_opt_u64_units(o: Option<u64>) -> nat {
    match o {
        Some(_) => 9,
        None => 0,
    }
}

/// An upper bound on the measure of one payload field: a string held in
/// memory has at most `usize::MAX` characters.
pub open spec fn field_units_bound() -> nat {
    usize::MAX as nat + 9
}

/// An upper bound on the measure of a whole metadata payload (at most
/// twelve fields).
pub open spec fn meta_units_bound() -> nat {
    12 * field_units_bound()
}

/// An upper bound on the measure of a whole stored entity (key and owner
/// strings, payload, and per-entry overheads).
pub open spec fn entry_units_bound() -> nat {
    8 * (usize::MAX as nat) + meta_units_bound() + 1000
}

/// Measure an optional string field.
pub fn opt_str_units(o: &Option<String>) -> (r: u128)
    ensures
        r as nat == spec_opt_str_units(*o),
        r as nat <= field_units_bound(),
{
    match o {
        Some(s) => s.as_str().unicode_len() as u128 + 1,
        None => 0,
    }
}

/// Measure an optional integer field.
pub fn opt_u64_units(o: &Option<u64>) -> (r: u128)
    ensures
        r as nat == spec_opt_u64_units(*o),
        r as nat <= field_units_bound(),
{
    match o {
        Some(_) => 9,
        None => 0,
    }
}

} // verus!
