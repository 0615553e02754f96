use vstd::prelude::*;

verus! {

/// Every way an operation on the vesting ledger can be rejected.
///
/// None of these is retried automatically: each failure leaves the ledger
/// exactly as it was before the operation.
#[derive(Clone, Copy, Debug, PartialEq, Eq, Structural)]
pub enum VestingError {
    /// A stored or submitted allocation violates a schedule invariant.
    InvalidAllocation,
    /// The cumulative allocated percentage would exceed 100% of the supply.
    SupplyExceeded,
    /// The ledger was already constructed once.
    AlreadyInitialized,
    /// The caller is not the designated deployer identity.
    Unauthorized,
    /// No allocation exists for the account at a mutating boundary.
    UnknownAccount,
    /// The claimable amount is zero, so no transfer is requested.
    NothingToClaim,
    /// Recording the debit would push `claimed` past the allocated share;
    /// fatal when it happens during confirmation, since funds already moved.
    Overdraw,
    /// A confirmation callback did not carry exactly one transfer result.
    MalformedCallback,
    /// A confirmation callback does not match the outstanding transfer.
    UnexpectedCallback,
}

impl VestingError {
    /// A short description, for display by an embedding runtime.
    pub fn message(&self) -> (r: &'static str) {
        match self {
            VestingError::InvalidAllocation => "allocation violates a schedule invariant",
            VestingError::SupplyExceeded => "total allocations exceed the total supply",
            VestingError::AlreadyInitialized => "the ledger is already initialized",
            VestingError::Unauthorized => "only the token factory may initialize the ledger",
            VestingError::UnknownAccount => "no allocation exists for this account",
            VestingError::NothingToClaim => "there is nothing to claim at the moment",
            VestingError::Overdraw => "total claimed would exceed the allocated share",
            VestingError::MalformedCallback => "callback did not carry exactly one result",
            VestingError::UnexpectedCallback => "callback does not match an outstanding transfer",
        }
    }
}

} // verus!
