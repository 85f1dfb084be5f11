//! The reasons for which a call is refused.

use vstd::prelude::*;

verus! {

/// Why a call was refused. A refused call leaves the state as it was.
#[derive(Clone, Copy, Debug, PartialEq, Eq, Structural)]
pub enum Error {
    /// The actor did not authorize the call, or is not the administrator.
    Unauthorized,
    /// The governance configuration exists already.
    AlreadyInitialized,
    /// The amount is under the lowest that is allowed: a tip under the minimum
    /// tip, or a negative minting threshold.
    BelowMinimum,
    /// The tips reported for the item are below the minting threshold.
    BelowThreshold,
    /// The item has a collectible already.
    AlreadyMinted,
    /// No collectible has the given token id.
    TokenNotFound,
    /// The collectible belongs to somebody else.
    NotOwner,
    /// The platform fee would exceed the highest fee allowed.
    FeeTooHigh,
    /// The contract is paused.
    ContractPaused,
    /// The external ledger did not move the value.
    TransferFailed,
}

} // verus!
