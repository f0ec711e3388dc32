//! The ways in which a ledger operation is refused.

use vstd::prelude::*;

verus! {

/// Why an operation was refused. A refused operation changes no state.
#[derive(Clone, Copy, Debug, PartialEq, Eq, Structural)]
pub enum LedgerError {
    /// The pool id is already registered.
    DuplicateId,
    /// No pool, or no open receipt, is known under the given id.
    NotFound,
    /// The receipt exists but is of the other kind.
    KindMismatch,
    /// The receipt was fulfilled before.
    AlreadyFulfilled,
    /// The caller is not the authority of the service.
    Unauthorized,
    /// The amount is zero, or is not the amount the receipt records.
    InvalidAmount,
    /// Less than the minimum provisioning balance was attached.
    InsufficientFunding,
    /// The caller's balance does not cover the withdrawal.
    InsufficientBalance,
    /// The provisioning chain did not report success.
    ProvisioningFailed,
    /// A derived or supplied account identifier is not well formed.
    InvalidAccountId,
}

} // verus!
