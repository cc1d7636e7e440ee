//! The ways in which a transaction can fail.
use vstd::prelude::*;

verus! {

#[derive(Clone, Copy, Debug, PartialEq, Eq, Structural)]
pub enum ErrorKind {
    /// Malformed, unsigned or stale transaction.
    InvalidTransaction,
    /// A signer, owner or writability requirement is not met.
    PrivilegeViolation,
    /// An instruction payload does not decode.
    MalformedInstruction,
    /// Create on an account that is already active.
    AlreadyExists,
    /// A debit exceeds the balance.
    InsufficientFunds,
    /// The instruction count or the growth of the transaction is over its ceiling.
    TraceLimitExceeded,
}

} // verus!
