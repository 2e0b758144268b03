use vstd::prelude::*;

verus! {

/// An opaque value uniquely naming a holder of balance and allowance entries.
/// The host environment decides what identities exist; the ledger only
/// compares them for equality.
pub type AccountId = u64;

/// A non-negative quantity of the token's smallest unit.
pub type Balance = u128;

/// The two ways a ledger operation can fail. Every failure leaves the ledger
/// exactly as it was before the call.
#[derive(Clone, Copy, Debug, PartialEq, Eq)]
pub enum Error {
    /// The source account's balance does not cover the requested movement.
    BalanceTooLow,
    /// The spender's authorized allowance does not cover the requested
    /// movement.
    AllowanceTooLow,
}

} // verus!
