//! The host-supplied call context.
//!
//! The execution host owns the ambient values of a call: who the caller is,
//! how much payment the call attached, what one byte of storage costs, and
//! the current clock.  The registry never reads them itself; the host hands
//! them in here, which keeps every operation a pure function of its
//! arguments.

use vstd::prelude::*;

verus! {

/// The ambient values of one top-level call, as supplied by the host.
pub struct CallContext {
    /// The account that made the call.
    pub caller: String,
    /// The payment attached to the call, in minimal currency units.
    pub attached: u128,
    /// The price of one byte of storage, in minimal currency units.
    pub price_per_byte: u128,
    /// The current block time, Unix epoch milliseconds.
    pub now_ms: u64,
}

} // verus!
