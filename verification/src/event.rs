//! Events: the append-only notification log. Each successful mutating
//! entry point appends exactly one event; a failing call appends none.

use vstd::prelude::*;
use crate::account::Account;
use crate::quantity::U256;

verus! {

#[derive(PartialEq, Eq, Debug)]
#[allow(inconsistent_fields)]
pub enum Event {
    TransferSingle { operator: Account, from: Account, to: Account, id: U256, value: U256 },
    TransferBatch { operator: Account, from: Account, to: Account, ids: Vec<U256>, values: Vec<U256> },
    ApprovalForAll { account: Account, operator: Account, approved: bool },
    Uri { value: String, id: U256 },
    OwnershipTransferred { previous_owner: Account, new_owner: Account },
    Paused { account: Account },
    Unpaused { account: Account },
}

} // verus!
