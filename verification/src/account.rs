//! Accounts: opaque 160-bit identifiers (20-byte addresses in the source
//! domain). The all-zero value is the null account, the sentinel for
//! "no account"; it is rejected as a sender, receiver or operator.

use vstd::prelude::*;

verus! {

/// A 160-bit account identifier: `hi` holds the high 32 bits, `lo` the low 128.
#[derive(Clone, Copy, PartialEq, Eq, Structural, Debug, Hash)]
pub struct Account {
    pub hi: u32,
    pub lo: u128,
}

impl Account {
    /// The null account.
    pub open spec fn null_spec() -> Account {
        Account { hi: 0, lo: 0 }
    }

    pub open spec fn is_null(self) -> bool {
        self == Account::null_spec()
    }

    /// The null account, the sentinel for "no account".
    pub fn null() -> (r: Account)
        ensures
            r == Account::null_spec(),
    {
        Account { hi: 0, lo: 0 }
    }

    pub fn new(hi: u32, lo: u128) -> (r: Account)
        ensures
            r == (Account { hi, lo }),
    {
        Account { hi, lo }
    }
}

} // verus!
