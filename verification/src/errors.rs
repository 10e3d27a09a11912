use vstd::prelude::*;

verus! {

/// The failure kinds of the ledger operations. Every error aborts the whole
/// operation: a failed operation changes no stored state and emits no event.
#[derive(Clone, Copy, Debug, PartialEq, Eq, Structural)]
pub enum TokenError {
    /// `initialize` was called while an administrator already exists.
    AlreadyInitialized,
    /// An operation needing the administrator or the metadata ran before `initialize`.
    NotInitialized,
    /// The decimal precision handed to `initialize` exceeds the 8-bit range.
    InvalidDecimal,
    /// A negative amount was handed to a balance-moving operation.
    NegativeAmount,
    /// A party of a transfer, burn or mint is currently deauthorized.
    Deauthorized,
    /// The debited holder's balance is smaller than the requested amount.
    InsufficientBalance,
    /// The authorization proof is not from the identity the operation demands.
    Unauthorized,
}

} // verus!
