//! The closed error taxonomy. Every failing entry point returns one of
//! these variants, carrying the structured fields a caller needs to branch
//! on the failure; the state is left exactly as it was.

use vstd::prelude::*;
use crate::account::Account;
use crate::quantity::U256;

verus! {

#[derive(Clone, Copy, PartialEq, Eq, Structural, Debug)]
pub enum Error {
    /// The ledger cannot satisfy a debit.
    InsufficientBalance { sender: Account, balance: U256, needed: U256, token_id: U256 },
    /// The null account was used as a source.
    InvalidSender { sender: Account },
    /// The null account was used as a destination.
    InvalidReceiver { receiver: Account },
    /// The caller lacks authorization over `owner`'s tokens.
    MissingApprovalForAll { operator: Account, owner: Account },
    /// The null account was used as an approval target.
    InvalidOperator { operator: Account },
    /// An account granted approval to itself.
    SelfApproval { operator: Account },
    /// Parallel arrays of different lengths.
    InvalidArrayLength { ids_length: usize, values_length: usize },
    /// A non-owner invoked an owner-gated operation.
    UnauthorizedAccount { account: Account },
    /// The operation requires the contract not to be paused.
    EnforcedPause,
    /// The operation requires the contract to be paused.
    ExpectedPause,
    /// `initialize` was called a second time.
    AlreadyInitialized,
    /// The null account was named as the new owner.
    InvalidNewOwner { new_owner: Account },
}

} // verus!
