//! The multi-token contract state and its entry points.
//!
//! Every entry point takes the calling account explicitly and follows the
//! same shape: guard (owner / pause), validate, apply, emit one event.
//! A failing call returns a structured [`Error`] and leaves the state
//! exactly as it was; a successful mutating call appends exactly one event.
//!
//! The central invariant, [`ERC1155Token::wf`], ties the ledger to the
//! supply records: for every token id, the balances for that id sum to
//! its recorded total supply.

use vstd::prelude::*;
use crate::account::Account;
use crate::quantity::{U256, u256_bound};
use crate::error::Error;
use crate::event::Event;
use crate::ledger::{
    ApprovalEntry, BalanceEntry, SupplyEntry, approval_keys_unique, balance_keys_unique,
    contains_id, get_approval, get_balance, get_supply, insert_id, lookup_approval,
    lookup_balance, lookup_supply, set_approval, set_balance, set_supply, sum_for,
    supply_keys_unique, lemma_lookup_le_sum,
};

verus! {

/// The complete persistent state of the multi-token contract.
pub struct ERC1155Token {
    /// Metadata URI template; token URIs append the decimal id and ".json".
    pub base_uri: String,
    /// Balances, keyed by (account, token id); absent reads as zero.
    pub balances: Vec<BalanceEntry>,
    /// Blanket operator consents, keyed by (owner, operator).
    pub operator_approvals: Vec<ApprovalEntry>,
    /// Total supply per token id; absent reads as zero.
    pub total_supply: Vec<SupplyEntry>,
    /// Ids that have ever been minted; never shrinks.
    pub token_exists: Vec<U256>,
    /// The managing account; the null account once ownership is renounced.
    pub owner: Account,
    /// While set, every ledger-mutating entry point is rejected.
    pub paused: bool,
    /// Write-once guard for `initialize`.
    pub initialized: bool,
    /// The id the next `mint_new` will allocate.
    pub next_token_id: U256,
    /// Append-only log: one event per successful mutating call.
    pub events: Vec<Event>,
}

impl ERC1155Token {
    /// The balance entry recorded for (a, id), zero when absent.
    pub open spec fn bal_entry(self, a: Account, id: U256) -> U256 {
        lookup_balance(self.balances@, a, id)
    }

    /// The balance of account `a` for token `id`, as a number.
    pub open spec fn bal(self, a: Account, id: U256) -> nat {
        self.bal_entry(a, id).as_nat()
    }

    /// The supply entry recorded for `id`, zero when absent.
    pub open spec fn supply_entry(self, id: U256) -> U256 {
        lookup_supply(self.total_supply@, id)
    }

    /// The total supply of token `id`, as a number.
    pub open spec fn supply(self, id: U256) -> nat {
        self.supply_entry(id).as_nat()
    }

    /// Whether `operator` holds blanket consent over `owner`'s tokens.
    pub open spec fn approved(self, owner: Account, operator: Account) -> bool {
        lookup_approval(self.operator_approvals@, owner, operator)
    }

    /// Whether token `id` has ever been minted.
    pub open spec fn token_known(self, id: U256) -> bool {
        self.token_exists@.contains(id)
    }

    /// An operation on behalf of `from` is permitted to `caller` exactly
    /// when the caller is `from` itself or holds its blanket consent.
    pub open spec fn authorized(self, caller: Account, from: Account) -> bool {
        from == caller || self.approved(from, caller)
    }

    /// Conservation: for every token id, the balances sum to the supply.
    pub open spec fn conserved(self) -> bool {
        forall|j: U256| #[trigger] sum_for(self.balances@, j) == self.supply(j)
    }

    /// Well-formedness: distinct store keys, and conservation.
    pub open spec fn wf(self) -> bool {
        &&& balance_keys_unique(self.balances@)
        &&& supply_keys_unique(self.total_supply@)
        &&& approval_keys_unique(self.operator_approvals@)
        &&& self.conserved()
    }

    /// The blank, uninitialized contract state: empty stores, null owner,
    /// unpaused, nothing minted, no events.
    pub fn new() -> (r: ERC1155Token)
        ensures
            r.wf(),
            !r.initialized,
            !r.paused,
            r.owner == Account::null_spec(),
            r.base_uri@ == Seq::<char>::empty(),
            r.next_token_id.as_nat() == 0,
            r.balances@ == Seq::<BalanceEntry>::empty(),
            r.total_supply@ == Seq::<SupplyEntry>::empty(),
            r.operator_approvals@ == Seq::<ApprovalEntry>::empty(),
            r.token_exists@ == Seq::<U256>::empty(),
            r.events@ == Seq::<Event>::empty(),
    {
        let r = ERC1155Token {
            base_uri: String::new(),
            balances: Vec::new(),
            operator_approvals: Vec::new(),
            total_supply: Vec::new(),
            token_exists: Vec::new(),
            owner: Account::null(),
            paused: false,
            initialized: false,
            next_token_id: U256::zero(),
            events: Vec::new(),
        };
        proof {
            assert forall|j: U256| sum_for(r.balances@, j) == r.supply(j) by {
                assert(sum_for(r.balances@, j) == 0);
                assert(lookup_supply(r.total_supply@, j) == (U256 { lo: 0, hi: 0 }));
            }
        }
        r
    }

    /// One-time constructor: sets the URI template and the owner, clears
    /// the pause flag, starts token ids at 1, and emits an ownership
    /// transfer from the null account. Replay fails and changes nothing.
    pub fn initialize(&mut self, base_uri: String, owner: Account) -> (r: Result<(), Error>)
        requires
            old(self).wf(),
        ensures
            final(self).wf(),
            old(self).initialized ==> r == Err::<(), Error>(Error::AlreadyInitialized)
                && *final(self) == *old(self),
            !old(self).initialized ==> {
                &&& r == Ok::<(), Error>(())
                &&& final(self).initialized
                &&& final(self).owner == owner
                &&& !final(self).paused
                &&& final(self).base_uri@ == base_uri@
                &&& final(self).next_token_id.as_nat() == 1
                &&& final(self).balances@ == old(self).balances@
                &&& final(self).total_supply@ == old(self).total_supply@
                &&& final(self).operator_approvals@ == old(self).operator_approvals@
                &&& final(self).token_exists@ == old(self).token_exists@
                &&& final(self).events@ == old(self).events@.push(
                    Event::OwnershipTransferred {
                        previous_owner: Account::null_spec(),
                        new_owner: owner,
                    },
                )
            },
    {
        if self.initialized {
            return Err(Error::AlreadyInitialized);
        }
        self.base_uri = base_uri;
        self.owner = owner;
        self.paused = false;
        self.next_token_id = U256::one();
        self.initialized = true;
        self.events.push(Event::OwnershipTransferred {
            previous_owner: Account::null(),
            new_owner: owner,
        });
        Ok(())
    }

    // ------------------------------------------------------------------
    // Access guards
    // ------------------------------------------------------------------

    /// Owner gate: fails unless the caller is the stored owner.
    fn require_owner(&self, caller: Account) -> (r: Result<(), Error>)
        ensures
            caller == self.owner ==> r == Ok::<(), Error>(()),
            caller != self.owner ==> r == Err::<(), Error>(
                Error::UnauthorizedAccount { account: caller },
            ),
    {
        if caller != self.owner {
            return Err(Error::UnauthorizedAccount { account: caller });
        }
        Ok(())
    }

    /// Pause gate: fails while the contract is paused.
    fn require_not_paused(&self) -> (r: Result<(), Error>)
        ensures
            !self.paused ==> r == Ok::<(), Error>(()),
            self.paused ==> r == Err::<(), Error>(Error::EnforcedPause),
    {
        if self.paused {
            return Err(Error::EnforcedPause);
        }
        Ok(())
    }

    /// Inverse pause gate: fails while the contract is not paused.
    fn require_paused(&self) -> (r: Result<(), Error>)
        ensures
            self.paused ==> r == Ok::<(), Error>(()),
            !self.paused ==> r == Err::<(), Error>(Error::ExpectedPause),
    {
        if !self.paused {
            return Err(Error::ExpectedPause);
        }
        Ok(())
    }

    // ------------------------------------------------------------------
    // Ledger reads
    // ------------------------------------------------------------------

    /// The balance of `account` for token `id`. Querying the null account
    /// is rejected as meaningless.
    pub fn balance_of(&self, account: Account, id: U256) -> (r: Result<U256, Error>)
        ensures
            account.is_null() ==> r == Err::<U256, Error>(
                Error::InvalidSender { sender: account },
            ),
            !account.is_null() ==> r == Ok::<U256, Error>(self.bal_entry(account, id)),
    {
        if account == Account::null() {
            return Err(Error::InvalidSender { sender: account });
        }
        Ok(get_balance(&self.balances, account, id))
    }

    /// Pointwise balances of parallel (account, id) pairs, in input order.
    pub fn balance_of_batch(&self, accounts: Vec<Account>, ids: Vec<U256>) -> (r: Result<
        Vec<U256>,
        Error,
    >)
        ensures
            accounts@.len() != ids@.len() ==> r == Err::<Vec<U256>, Error>(
                Error::InvalidArrayLength {
                    ids_length: ids.len(),
                    values_length: accounts.len(),
                },
            ),
            accounts@.len() == ids@.len() && (exists|k: int|
                0 <= k < accounts@.len() && (#[trigger] accounts@[k]).is_null()) ==> r == Err::<
                Vec<U256>,
                Error,
            >(Error::InvalidSender { sender: Account::null_spec() }),
            accounts@.len() == ids@.len() && (forall|k: int|
                0 <= k < accounts@.len() ==> !(#[trigger] accounts@[k]).is_null()) ==> {
                &&& r is Ok
                &&& r->Ok_0@.len() == ids@.len()
                &&& forall|k: int|
                    0 <= k < ids@.len() ==> r->Ok_0@[k] == self.bal_entry(
                        accounts@[k],
                        #[trigger] ids@[k],
                    )
            },
    {
        if accounts.len() != ids.len() {
            return Err(Error::InvalidArrayLength {
                ids_length: ids.len(),
                values_length: accounts.len(),
            });
        }
        let n = accounts.len();
        let mut res: Vec<U256> = Vec::new();
        let mut i: usize = 0;
        while i < n
            invariant
                n == accounts@.len() == ids@.len(),
                i <= n,
                res@.len() == i,
                forall|k: int| 0 <= k < i ==> !(#[trigger] accounts@[k]).is_null(),
                forall|k: int|
                    0 <= k < i ==> res@[k] == self.bal_entry(accounts@[k], #[trigger] ids@[k]),
            decreases n - i,
        {
            let a = accounts[i];
            if a == Account::null() {
                return Err(Error::InvalidSender { sender: a });
            }
            res.push(get_balance(&self.balances, a, ids[i]));
            i = i + 1;
        }
        Ok(res)
    }

    /// The total outstanding (minted minus burned) quantity of token `id`.
    pub fn total_supply(&self, id: U256) -> (r: U256)
        ensures
            r == self.supply_entry(id),
    {
        get_supply(&self.total_supply, id)
    }

    /// Whether token `id` has ever been minted. Burning a token's whole
    /// supply does not clear this flag.
    pub fn token_exists(&self, id: U256) -> (r: bool)
        ensures
            r == self.token_known(id),
    {
        contains_id(&self.token_exists, id)
    }

    /// Whether the contract is paused.
    pub fn is_paused(&self) -> (r: bool)
        ensures
            r == self.paused,
    {
        self.paused
    }

    /// The current owner; the null account after renunciation.
    pub fn owner(&self) -> (r: Account)
        ensures
            r == self.owner,
    {
        self.owner
    }

    /// Whether `operator` holds blanket consent over `account`'s tokens.
    pub fn is_approved_for_all(&self, account: Account, operator: Account) -> (r: bool)
        ensures
            r == self.approved(account, operator),
    {
        get_approval(&self.operator_approvals, account, operator)
    }
}

} // verus!

verus! {

// ---------------------------------------------------------------------------
// Transition predicates
// ---------------------------------------------------------------------------

/// The administrative fields are untouched.
pub open spec fn same_admin(pre: ERC1155Token, post: ERC1155Token) -> bool {
    &&& post.owner == pre.owner
    &&& post.paused == pre.paused
    &&& post.initialized == pre.initialized
    &&& post.next_token_id == pre.next_token_id
    &&& post.base_uri@ == pre.base_uri@
}

/// All four persistent stores are untouched.
pub open spec fn same_stores(pre: ERC1155Token, post: ERC1155Token) -> bool {
    &&& post.balances@ == pre.balances@
    &&& post.total_supply@ == pre.total_supply@
    &&& post.token_exists@ == pre.token_exists@
    &&& post.operator_approvals@ == pre.operator_approvals@
}

/// The effect of one successful transfer of `amount` of `id` from `from`
/// to `to`: exactly the two balances move (none at all when `from == to`),
/// everything else is untouched, and one single-transfer event is logged.
pub open spec fn single_transfer_applied(
    pre: ERC1155Token,
    post: ERC1155Token,
    operator: Account,
    from: Account,
    to: Account,
    id: U256,
    amount: U256,
) -> bool {
    &&& forall|a: Account, j: U256|
        #[trigger] post.bal(a, j) as int == pre.bal(a, j) + (if a == to && j == id {
            amount.as_nat() as int
        } else {
            0
        }) - (if a == from && j == id {
            amount.as_nat() as int
        } else {
            0
        })
    &&& post.total_supply@ == pre.total_supply@
    &&& post.token_exists@ == pre.token_exists@
    &&& post.operator_approvals@ == pre.operator_approvals@
    &&& same_admin(pre, post)
    &&& post.events@ == pre.events@.push(
        Event::TransferSingle { operator, from, to, id, value: amount },
    )
}

/// The effect of one successful mint of `amount` of `id` to `to`: the
/// receiver's balance and the id's supply grow by `amount`, the id is
/// marked existing, and one single-transfer event from the null account
/// is logged.
pub open spec fn mint_applied(
    pre: ERC1155Token,
    post: ERC1155Token,
    operator: Account,
    to: Account,
    id: U256,
    amount: U256,
) -> bool {
    &&& forall|a: Account, j: U256|
        #[trigger] post.bal(a, j) == pre.bal(a, j) + (if a == to && j == id {
            amount.as_nat()
        } else {
            0
        })
    &&& forall|j: U256|
        #[trigger] post.supply(j) == pre.supply(j) + (if j == id {
            amount.as_nat()
        } else {
            0
        })
    &&& forall|j: U256| #[trigger] post.token_known(j) <==> (pre.token_known(j) || j == id)
    &&& post.operator_approvals@ == pre.operator_approvals@
    &&& same_admin(pre, post)
    &&& post.events@ == pre.events@.push(
        Event::TransferSingle {
            operator,
            from: Account::null_spec(),
            to,
            id,
            value: amount,
        },
    )
}

/// The effect of one successful burn of `amount` of `id` from `from`: the
/// holder's balance and the id's supply shrink by `amount`, the existence
/// flags are untouched (burning never clears them), and one
/// single-transfer event to the null account is logged.
pub open spec fn burn_applied(
    pre: ERC1155Token,
    post: ERC1155Token,
    operator: Account,
    from: Account,
    id: U256,
    amount: U256,
) -> bool {
    &&& forall|a: Account, j: U256|
        #[trigger] post.bal(a, j) as int == pre.bal(a, j) - (if a == from && j == id {
            amount.as_nat() as int
        } else {
            0
        })
    &&& forall|j: U256|
        #[trigger] post.supply(j) as int == pre.supply(j) - (if j == id {
            amount.as_nat() as int
        } else {
            0
        })
    &&& post.token_exists@ == pre.token_exists@
    &&& post.operator_approvals@ == pre.operator_approvals@
    &&& same_admin(pre, post)
    &&& post.events@ == pre.events@.push(
        Event::TransferSingle {
            operator,
            from,
            to: Account::null_spec(),
            id,
            value: amount,
        },
    )
}

impl ERC1155Token {
    // ------------------------------------------------------------------
    // Single-item engines
    // ------------------------------------------------------------------

    /// Validate and apply one transfer: both accounts non-null and the
    /// sender's balance sufficient, then debit, credit, and log.
    fn transfer_internal(
        &mut self,
        operator: Account,
        from: Account,
        to: Account,
        id: U256,
        amount: U256,
    ) -> (r: Result<(), Error>)
        requires
            old(self).wf(),
        ensures
            final(self).wf(),
            ({
                let pre = *old(self);
                let post = *final(self);
                if from.is_null() {
                    r == Err::<(), Error>(Error::InvalidSender { sender: from }) && post == pre
                } else if to.is_null() {
                    r == Err::<(), Error>(Error::InvalidReceiver { receiver: to }) && post == pre
                } else if pre.bal(from, id) < amount.as_nat() {
                    r == Err::<(), Error>(
                        Error::InsufficientBalance {
                            sender: from,
                            balance: pre.bal_entry(from, id),
                            needed: amount,
                            token_id: id,
                        },
                    ) && post == pre
                } else {
                    r == Ok::<(), Error>(()) && single_transfer_applied(
                        pre,
                        post,
                        operator,
                        from,
                        to,
                        id,
                        amount,
                    )
                }
            }),
    {
        if from == Account::null() {
            return Err(Error::InvalidSender { sender: from });
        }
        if to == Account::null() {
            return Err(Error::InvalidReceiver { receiver: to });
        }
        let from_balance = get_balance(&self.balances, from, id);
        if from_balance.lt(&amount) {
            return Err(Error::InsufficientBalance {
                sender: from,
                balance: from_balance,
                needed: amount,
                token_id: id,
            });
        }
        let ghost pre = *self;
        set_balance(&mut self.balances, from, id, from_balance.minus(amount));
        let ghost mid = self.balances@;
        let to_balance = get_balance(&self.balances, to, id);
        proof {
            lemma_lookup_le_sum(mid, to, id);
            assert(sum_for(mid, id) + from_balance.as_nat() == sum_for(pre.balances@, id)
                + (from_balance.as_nat() - amount.as_nat()));
            assert(sum_for(pre.balances@, id) == pre.supply(id));
        }
        set_balance(&mut self.balances, to, id, to_balance.plus(amount));
        self.events.push(Event::TransferSingle { operator, from, to, id, value: amount });
        proof {
            assert forall|j: U256| sum_for(self.balances@, j) == self.supply(j) by {
                assert(sum_for(pre.balances@, j) == pre.supply(j));
            }
            assert forall|a: Account, j: U256|
                #[trigger] self.bal(a, j) as int == pre.bal(a, j) + (if a == to && j == id {
                    amount.as_nat() as int
                } else {
                    0
                }) - (if a == from && j == id {
                    amount.as_nat() as int
                } else {
                    0
                }) by {
                if a == from && j == id && !(a == to) {
                    assert(lookup_balance(self.balances@, a, j) == lookup_balance(mid, a, j));
                }
            }
        }
        Ok(())
    }
}

} // verus!

verus! {

impl ERC1155Token {
    /// Validate and apply one mint: receiver non-null, then credit the
    /// balance, raise the supply, mark the id existing, and log.
    fn mint_internal(&mut self, operator: Account, to: Account, id: U256, amount: U256) -> (r:
        Result<(), Error>)
        requires
            old(self).wf(),
            !to.is_null() ==> old(self).supply(id) + amount.as_nat() < u256_bound(),
        ensures
            final(self).wf(),
            ({
                let pre = *old(self);
                let post = *final(self);
                if to.is_null() {
                    r == Err::<(), Error>(Error::InvalidReceiver { receiver: to }) && post == pre
                } else {
                    r == Ok::<(), Error>(()) && mint_applied(pre, post, operator, to, id, amount)
                }
            }),
    {
        if to == Account::null() {
            return Err(Error::InvalidReceiver { receiver: to });
        }
        let ghost pre = *self;
        let balance = get_balance(&self.balances, to, id);
        proof {
            lemma_lookup_le_sum(pre.balances@, to, id);
            assert(sum_for(pre.balances@, id) == pre.supply(id));
        }
        set_balance(&mut self.balances, to, id, balance.plus(amount));
        let supply = get_supply(&self.total_supply, id);
        set_supply(&mut self.total_supply, id, supply.plus(amount));
        insert_id(&mut self.token_exists, id);
        self.events.push(Event::TransferSingle {
            operator,
            from: Account::null(),
            to,
            id,
            value: amount,
        });
        proof {
            assert forall|j: U256| sum_for(self.balances@, j) == self.supply(j) by {
                assert(sum_for(pre.balances@, j) == pre.supply(j));
            }
        }
        Ok(())
    }

    /// Validate and apply one burn: holder non-null and balance
    /// sufficient, then debit the balance, lower the supply (possibly to
    /// zero, without clearing the existence flag), and log.
    fn burn_internal(&mut self, operator: Account, from: Account, id: U256, amount: U256) -> (r:
        Result<(), Error>)
        requires
            old(self).wf(),
        ensures
            final(self).wf(),
            ({
                let pre = *old(self);
                let post = *final(self);
                if from.is_null() {
                    r == Err::<(), Error>(Error::InvalidSender { sender: from }) && post == pre
                } else if pre.bal(from, id) < amount.as_nat() {
                    r == Err::<(), Error>(
                        Error::InsufficientBalance {
                            sender: from,
                            balance: pre.bal_entry(from, id),
                            needed: amount,
                            token_id: id,
                        },
                    ) && post == pre
                } else {
                    r == Ok::<(), Error>(()) && burn_applied(pre, post, operator, from, id, amount)
                }
            }),
    {
        if from == Account::null() {
            return Err(Error::InvalidSender { sender: from });
        }
        let balance = get_balance(&self.balances, from, id);
        if balance.lt(&amount) {
            return Err(Error::InsufficientBalance {
                sender: from,
                balance,
                needed: amount,
                token_id: id,
            });
        }
        let ghost pre = *self;
        proof {
            lemma_lookup_le_sum(pre.balances@, from, id);
            assert(sum_for(pre.balances@, id) == pre.supply(id));
        }
        set_balance(&mut self.balances, from, id, balance.minus(amount));
        let supply = get_supply(&self.total_supply, id);
        set_supply(&mut self.total_supply, id, supply.minus(amount));
        self.events.push(Event::TransferSingle {
            operator,
            from,
            to: Account::null(),
            id,
            value: amount,
        });
        proof {
            assert forall|j: U256| sum_for(self.balances@, j) == self.supply(j) by {
                assert(sum_for(pre.balances@, j) == pre.supply(j));
            }
        }
        Ok(())
    }

    // ------------------------------------------------------------------
    // Transfers
    // ------------------------------------------------------------------

    /// Move `amount` of token `id` from `from` to `to`, on behalf of
    /// `caller`: rejected while paused, without authorization over `from`,
    /// for null accounts, or when the balance is short.
    pub fn safe_transfer_from(
        &mut self,
        caller: Account,
        from: Account,
        to: Account,
        id: U256,
        amount: U256,
        _data: Vec<u8>,
    ) -> (r: Result<(), Error>)
        requires
            old(self).wf(),
        ensures
            final(self).wf(),
            ({
                let pre = *old(self);
                let post = *final(self);
                if pre.paused {
                    r == Err::<(), Error>(Error::EnforcedPause) && post == pre
                } else if !pre.authorized(caller, from) {
                    r == Err::<(), Error>(
                        Error::MissingApprovalForAll { operator: caller, owner: from },
                    ) && post == pre
                } else if from.is_null() {
                    r == Err::<(), Error>(Error::InvalidSender { sender: from }) && post == pre
                } else if to.is_null() {
                    r == Err::<(), Error>(Error::InvalidReceiver { receiver: to }) && post == pre
                } else if pre.bal(from, id) < amount.as_nat() {
                    r == Err::<(), Error>(
                        Error::InsufficientBalance {
                            sender: from,
                            balance: pre.bal_entry(from, id),
                            needed: amount,
                            token_id: id,
                        },
                    ) && post == pre
                } else {
                    r == Ok::<(), Error>(()) && single_transfer_applied(
                        pre,
                        post,
                        caller,
                        from,
                        to,
                        id,
                        amount,
                    )
                }
            }),
    {
        match self.require_not_paused() {
            Err(e) => {
                return Err(e);
            },
            Ok(()) => {},
        }
        if from != caller && !self.is_approved_for_all(from, caller) {
            return Err(Error::MissingApprovalForAll { operator: caller, owner: from });
        }
        self.transfer_internal(caller, from, to, id, amount)
    }

    // ------------------------------------------------------------------
    // Minting (owner only)
    // ------------------------------------------------------------------

    /// Mint `amount` of token `id` to `to`. Owner-gated and pause-gated;
    /// the receiver must be non-null. The caller shows the id's supply
    /// stays below 2^256 whenever the guards would let the mint through.
    pub fn mint(
        &mut self,
        caller: Account,
        to: Account,
        id: U256,
        amount: U256,
        _data: Vec<u8>,
    ) -> (r: Result<(), Error>)
        requires
            old(self).wf(),
            caller == old(self).owner && !old(self).paused && !to.is_null() ==> old(self).supply(
                id,
            ) + amount.as_nat() < u256_bound(),
        ensures
            final(self).wf(),
            ({
                let pre = *old(self);
                let post = *final(self);
                if caller != pre.owner {
                    r == Err::<(), Error>(Error::UnauthorizedAccount { account: caller }) && post
                        == pre
                } else if pre.paused {
                    r == Err::<(), Error>(Error::EnforcedPause) && post == pre
                } else if to.is_null() {
                    r == Err::<(), Error>(Error::InvalidReceiver { receiver: to }) && post == pre
                } else {
                    r == Ok::<(), Error>(()) && mint_applied(pre, post, caller, to, id, amount)
                }
            }),
    {
        match self.require_owner(caller) {
            Err(e) => {
                return Err(e);
            },
            Ok(()) => {},
        }
        match self.require_not_paused() {
            Err(e) => {
                return Err(e);
            },
            Ok(()) => {},
        }
        self.mint_internal(caller, to, id, amount)
    }

    /// Mint `amount` of a brand-new token type: allocates the next token
    /// id, advances the counter, and mints to `to`. Returns the new id.
    pub fn mint_new(&mut self, caller: Account, to: Account, amount: U256) -> (r: Result<
        U256,
        Error,
    >)
        requires
            old(self).wf(),
            caller == old(self).owner && !old(self).paused && !to.is_null() ==> {
                &&& old(self).next_token_id.as_nat() + 1 < u256_bound()
                &&& old(self).supply(old(self).next_token_id) + amount.as_nat() < u256_bound()
            },
        ensures
            final(self).wf(),
            ({
                let pre = *old(self);
                let post = *final(self);
                if caller != pre.owner {
                    r == Err::<U256, Error>(Error::UnauthorizedAccount { account: caller }) && post
                        == pre
                } else if pre.paused {
                    r == Err::<U256, Error>(Error::EnforcedPause) && post == pre
                } else if to.is_null() {
                    r == Err::<U256, Error>(Error::InvalidReceiver { receiver: to }) && post == pre
                } else {
                    &&& r == Ok::<U256, Error>(pre.next_token_id)
                    &&& post.next_token_id.as_nat() == pre.next_token_id.as_nat() + 1
                    &&& mint_applied(
                        ERC1155Token { next_token_id: post.next_token_id, ..pre },
                        post,
                        caller,
                        to,
                        pre.next_token_id,
                        amount,
                    )
                }
            }),
    {
        match self.require_owner(caller) {
            Err(e) => {
                return Err(e);
            },
            Ok(()) => {},
        }
        match self.require_not_paused() {
            Err(e) => {
                return Err(e);
            },
            Ok(()) => {},
        }
        if to == Account::null() {
            return Err(Error::InvalidReceiver { receiver: to });
        }
        let id = self.next_token_id;
        self.next_token_id = id.plus(U256::one());
        let r = self.mint_internal(caller, to, id, amount);
        proof {
            assert(r is Ok);
        }
        match r {
            Ok(()) => Ok(id),
            Err(e) => Err(e),
        }
    }

    // ------------------------------------------------------------------
    // Burning
    // ------------------------------------------------------------------

    /// Burn `amount` of token `id` from the caller's own balance.
    /// Pause-gated; the balance must be sufficient.
    pub fn burn(&mut self, caller: Account, id: U256, amount: U256) -> (r: Result<(), Error>)
        requires
            old(self).wf(),
        ensures
            final(self).wf(),
            ({
                let pre = *old(self);
                let post = *final(self);
                if pre.paused {
                    r == Err::<(), Error>(Error::EnforcedPause) && post == pre
                } else if caller.is_null() {
                    r == Err::<(), Error>(Error::InvalidSender { sender: caller }) && post == pre
                } else if pre.bal(caller, id) < amount.as_nat() {
                    r == Err::<(), Error>(
                        Error::InsufficientBalance {
                            sender: caller,
                            balance: pre.bal_entry(caller, id),
                            needed: amount,
                            token_id: id,
                        },
                    ) && post == pre
                } else {
                    r == Ok::<(), Error>(()) && burn_applied(pre, post, caller, caller, id, amount)
                }
            }),
    {
        match self.require_not_paused() {
            Err(e) => {
                return Err(e);
            },
            Ok(()) => {},
        }
        self.burn_internal(caller, caller, id, amount)
    }

    /// Burn `amount` of token `id` from `from`, on behalf of `caller`:
    /// pause-gated and requiring authorization over `from`.
    pub fn burn_from(&mut self, caller: Account, from: Account, id: U256, amount: U256) -> (r:
        Result<(), Error>)
        requires
            old(self).wf(),
        ensures
            final(self).wf(),
            ({
                let pre = *old(self);
                let post = *final(self);
                if pre.paused {
                    r == Err::<(), Error>(Error::EnforcedPause) && post == pre
                } else if !pre.authorized(caller, from) {
                    r == Err::<(), Error>(
                        Error::MissingApprovalForAll { operator: caller, owner: from },
                    ) && post == pre
                } else if from.is_null() {
                    r == Err::<(), Error>(Error::InvalidSender { sender: from }) && post == pre
                } else if pre.bal(from, id) < amount.as_nat() {
                    r == Err::<(), Error>(
                        Error::InsufficientBalance {
                            sender: from,
                            balance: pre.bal_entry(from, id),
                            needed: amount,
                            token_id: id,
                        },
                    ) && post == pre
                } else {
                    r == Ok::<(), Error>(()) && burn_applied(pre, post, caller, from, id, amount)
                }
            }),
    {
        match self.require_not_paused() {
            Err(e) => {
                return Err(e);
            },
            Ok(()) => {},
        }
        if from != caller && !self.is_approved_for_all(from, caller) {
            return Err(Error::MissingApprovalForAll { operator: caller, owner: from });
        }
        self.burn_internal(caller, from, id, amount)
    }
}

} // verus!

verus! {

/// The effect of one successful approval update: exactly the one consent
/// entry is overwritten, nothing else moves, and one approval event is
/// logged.
pub open spec fn approval_updated(
    pre: ERC1155Token,
    post: ERC1155Token,
    owner: Account,
    operator: Account,
    approved: bool,
) -> bool {
    &&& post.approved(owner, operator) == approved
    &&& forall|x: Account, y: Account|
        !(x == owner && y == operator) ==> #[trigger] post.approved(x, y) == pre.approved(x, y)
    &&& post.balances@ == pre.balances@
    &&& post.total_supply@ == pre.total_supply@
    &&& post.token_exists@ == pre.token_exists@
    &&& same_admin(pre, post)
    &&& post.events@ == pre.events@.push(
        Event::ApprovalForAll { account: owner, operator, approved },
    )
}

/// The three 4-byte capability identifiers the contract answers for:
/// base introspection and the two token-standard capabilities.
pub open spec fn supported_interface(iid: Seq<u8>) -> bool {
    ||| (iid[0] == 0x01 && iid[1] == 0xff && iid[2] == 0xc9 && iid[3] == 0xa7)
    ||| (iid[0] == 0xd9 && iid[1] == 0xb6 && iid[2] == 0x7a && iid[3] == 0x26)
    ||| (iid[0] == 0x0e && iid[1] == 0x89 && iid[2] == 0x34 && iid[3] == 0x1c)
}

impl ERC1155Token {
    // ------------------------------------------------------------------
    // Approvals
    // ------------------------------------------------------------------

    /// Grant or revoke `operator`'s blanket consent over the caller's
    /// tokens. The null account and the caller itself are rejected as
    /// operators; on success the consent entry is overwritten and one
    /// approval event is logged.
    pub fn set_approval_for_all(&mut self, caller: Account, operator: Account, approved: bool)
        -> (r: Result<(), Error>)
        requires
            old(self).wf(),
        ensures
            final(self).wf(),
            ({
                let pre = *old(self);
                let post = *final(self);
                if operator.is_null() {
                    r == Err::<(), Error>(Error::InvalidOperator { operator }) && post == pre
                } else if operator == caller {
                    r == Err::<(), Error>(Error::SelfApproval { operator }) && post == pre
                } else {
                    r == Ok::<(), Error>(()) && approval_updated(
                        pre,
                        post,
                        caller,
                        operator,
                        approved,
                    )
                }
            }),
    {
        if operator == Account::null() {
            return Err(Error::InvalidOperator { operator });
        }
        if operator == caller {
            return Err(Error::SelfApproval { operator });
        }
        set_approval(&mut self.operator_approvals, caller, operator, approved);
        self.events.push(Event::ApprovalForAll { account: caller, operator, approved });
        Ok(())
    }

    // ------------------------------------------------------------------
    // Pause lifecycle (owner only)
    // ------------------------------------------------------------------

    /// Pause the contract: owner-gated, and only from the unpaused state.
    pub fn pause(&mut self, caller: Account) -> (r: Result<(), Error>)
        requires
            old(self).wf(),
        ensures
            final(self).wf(),
            ({
                let pre = *old(self);
                let post = *final(self);
                if caller != pre.owner {
                    r == Err::<(), Error>(Error::UnauthorizedAccount { account: caller }) && post
                        == pre
                } else if pre.paused {
                    r == Err::<(), Error>(Error::EnforcedPause) && post == pre
                } else {
                    &&& r == Ok::<(), Error>(())
                    &&& post.paused
                    &&& same_stores(pre, post)
                    &&& post.owner == pre.owner
                    &&& post.initialized == pre.initialized
                    &&& post.next_token_id == pre.next_token_id
                    &&& post.base_uri@ == pre.base_uri@
                    &&& post.events@ == pre.events@.push(Event::Paused { account: caller })
                }
            }),
    {
        match self.require_owner(caller) {
            Err(e) => {
                return Err(e);
            },
            Ok(()) => {},
        }
        match self.require_not_paused() {
            Err(e) => {
                return Err(e);
            },
            Ok(()) => {},
        }
        self.paused = true;
        self.events.push(Event::Paused { account: caller });
        Ok(())
    }

    /// Unpause the contract: owner-gated, and only from the paused state.
    pub fn unpause(&mut self, caller: Account) -> (r: Result<(), Error>)
        requires
            old(self).wf(),
        ensures
            final(self).wf(),
            ({
                let pre = *old(self);
                let post = *final(self);
                if caller != pre.owner {
                    r == Err::<(), Error>(Error::UnauthorizedAccount { account: caller }) && post
                        == pre
                } else if !pre.paused {
                    r == Err::<(), Error>(Error::ExpectedPause) && post == pre
                } else {
                    &&& r == Ok::<(), Error>(())
                    &&& !post.paused
                    &&& same_stores(pre, post)
                    &&& post.owner == pre.owner
                    &&& post.initialized == pre.initialized
                    &&& post.next_token_id == pre.next_token_id
                    &&& post.base_uri@ == pre.base_uri@
                    &&& post.events@ == pre.events@.push(Event::Unpaused { account: caller })
                }
            }),
    {
        match self.require_owner(caller) {
            Err(e) => {
                return Err(e);
            },
            Ok(()) => {},
        }
        match self.require_paused() {
            Err(e) => {
                return Err(e);
            },
            Ok(()) => {},
        }
        self.paused = false;
        self.events.push(Event::Unpaused { account: caller });
        Ok(())
    }

    // ------------------------------------------------------------------
    // Ownership and metadata (owner only)
    // ------------------------------------------------------------------

    /// Replace the URI template; a URI event for id 0 announces the
    /// global change.
    pub fn set_uri(&mut self, caller: Account, new_uri: String) -> (r: Result<(), Error>)
        requires
            old(self).wf(),
        ensures
            final(self).wf(),
            ({
                let pre = *old(self);
                let post = *final(self);
                if caller != pre.owner {
                    r == Err::<(), Error>(Error::UnauthorizedAccount { account: caller }) && post
                        == pre
                } else {
                    &&& r == Ok::<(), Error>(())
                    &&& post.base_uri@ == new_uri@
                    &&& same_stores(pre, post)
                    &&& post.owner == pre.owner
                    &&& post.paused == pre.paused
                    &&& post.initialized == pre.initialized
                    &&& post.next_token_id == pre.next_token_id
                    &&& post.events@ == pre.events@.push(
                        Event::Uri { value: new_uri, id: U256 { lo: 0, hi: 0 } },
                    )
                }
            }),
    {
        match self.require_owner(caller) {
            Err(e) => {
                return Err(e);
            },
            Ok(()) => {},
        }
        self.base_uri = new_uri.clone();
        self.events.push(Event::Uri { value: new_uri, id: U256::zero() });
        Ok(())
    }

    /// Hand ownership to a non-null account; an ownership event records
    /// the old and the new owner.
    pub fn transfer_ownership(&mut self, caller: Account, new_owner: Account) -> (r: Result<
        (),
        Error,
    >)
        requires
            old(self).wf(),
        ensures
            final(self).wf(),
            ({
                let pre = *old(self);
                let post = *final(self);
                if caller != pre.owner {
                    r == Err::<(), Error>(Error::UnauthorizedAccount { account: caller }) && post
                        == pre
                } else if new_owner.is_null() {
                    r == Err::<(), Error>(Error::InvalidNewOwner { new_owner }) && post == pre
                } else {
                    &&& r == Ok::<(), Error>(())
                    &&& post.owner == new_owner
                    &&& same_stores(pre, post)
                    &&& post.paused == pre.paused
                    &&& post.initialized == pre.initialized
                    &&& post.next_token_id == pre.next_token_id
                    &&& post.base_uri@ == pre.base_uri@
                    &&& post.events@ == pre.events@.push(
                        Event::OwnershipTransferred { previous_owner: pre.owner, new_owner },
                    )
                }
            }),
    {
        match self.require_owner(caller) {
            Err(e) => {
                return Err(e);
            },
            Ok(()) => {},
        }
        if new_owner == Account::null() {
            return Err(Error::InvalidNewOwner { new_owner });
        }
        let old_owner = self.owner;
        self.owner = new_owner;
        self.events.push(Event::OwnershipTransferred { previous_owner: old_owner, new_owner });
        Ok(())
    }

    /// Set the owner to the null account, permanently disabling every
    /// owner-gated operation. Terminal: there is no recovery path.
    pub fn renounce_ownership(&mut self, caller: Account) -> (r: Result<(), Error>)
        requires
            old(self).wf(),
        ensures
            final(self).wf(),
            ({
                let pre = *old(self);
                let post = *final(self);
                if caller != pre.owner {
                    r == Err::<(), Error>(Error::UnauthorizedAccount { account: caller }) && post
                        == pre
                } else {
                    &&& r == Ok::<(), Error>(())
                    &&& post.owner == Account::null_spec()
                    &&& same_stores(pre, post)
                    &&& post.paused == pre.paused
                    &&& post.initialized == pre.initialized
                    &&& post.next_token_id == pre.next_token_id
                    &&& post.base_uri@ == pre.base_uri@
                    &&& post.events@ == pre.events@.push(
                        Event::OwnershipTransferred {
                            previous_owner: pre.owner,
                            new_owner: Account::null_spec(),
                        },
                    )
                }
            }),
    {
        match self.require_owner(caller) {
            Err(e) => {
                return Err(e);
            },
            Ok(()) => {},
        }
        let old_owner = self.owner;
        self.owner = Account::null();
        self.events.push(Event::OwnershipTransferred {
            previous_owner: old_owner,
            new_owner: Account::null(),
        });
        Ok(())
    }

    // ------------------------------------------------------------------
    // Interface detection
    // ------------------------------------------------------------------

    /// Answer true for exactly the three supported capability identifiers.
    pub fn supports_interface(&self, interface_id: [u8; 4]) -> (r: bool)
        ensures
            r == supported_interface(interface_id@),
    {
        let b0 = interface_id[0];
        let b1 = interface_id[1];
        let b2 = interface_id[2];
        let b3 = interface_id[3];
        (b0 == 0x01 && b1 == 0xff && b2 == 0xc9 && b3 == 0xa7) || (b0 == 0xd9 && b1 == 0xb6 && b2
            == 0x7a && b3 == 0x26) || (b0 == 0x0e && b1 == 0x89 && b2 == 0x34 && b3 == 0x1c)
    }
}

} // verus!

verus! {

// ---------------------------------------------------------------------------
// Batch accounting
// ---------------------------------------------------------------------------

/// The total quantity of token `j` named by the first `k` indices of the
/// parallel (ids, amounts) arrays.
pub open spec fn added_before(ids: Seq<U256>, amounts: Seq<U256>, k: int, j: U256) -> nat
    decreases k,
{
    if k <= 0 {
        0
    } else {
        added_before(ids, amounts, k - 1, j) + (if ids[k - 1] == j {
            amounts[k - 1].as_nat()
        } else {
            0
        })
    }
}

/// Longer prefixes never name less of a token.
pub proof fn lemma_added_before_mono(
    ids: Seq<U256>,
    amounts: Seq<U256>,
    k1: int,
    k2: int,
    j: U256,
)
    requires
        k1 <= k2,
    ensures
        added_before(ids, amounts, k1, j) <= added_before(ids, amounts, k2, j),
    decreases k2 - k1,
{
    if k1 < k2 {
        lemma_added_before_mono(ids, amounts, k1, k2 - 1, j);
    }
}

/// The sender's balance of `ids[i]` as seen when index `i` of a batch is
/// validated: the pre-state balance, less what the earlier indices already
/// moved away (`net` is false when sender and receiver coincide, in which
/// case each step returns what it takes).
pub open spec fn step_balance(
    pre: ERC1155Token,
    from: Account,
    net: bool,
    ids: Seq<U256>,
    amounts: Seq<U256>,
    i: int,
) -> int {
    pre.bal(from, ids[i]) - (if net {
        added_before(ids, amounts, i, ids[i]) as int
    } else {
        0
    })
}

/// The first `k` indices of the batch each see a sufficient balance.
pub open spec fn steps_ok(
    pre: ERC1155Token,
    from: Account,
    net: bool,
    ids: Seq<U256>,
    amounts: Seq<U256>,
    k: int,
) -> bool {
    forall|i: int|
        0 <= i < k ==> #[trigger] step_balance(pre, from, net, ids, amounts, i)
            >= amounts[i].as_nat()
}

/// The first index whose validation fails, scanning from `i`; `ids.len()`
/// when none does.
pub open spec fn first_shortfall_from(
    pre: ERC1155Token,
    from: Account,
    net: bool,
    ids: Seq<U256>,
    amounts: Seq<U256>,
    i: int,
) -> int
    decreases ids.len() - i,
{
    if i < 0 || i >= ids.len() {
        i
    } else if step_balance(pre, from, net, ids, amounts, i) < amounts[i].as_nat() {
        i
    } else {
        first_shortfall_from(pre, from, net, ids, amounts, i + 1)
    }
}

/// The first index of the batch whose validation fails.
pub open spec fn first_shortfall(
    pre: ERC1155Token,
    from: Account,
    net: bool,
    ids: Seq<U256>,
    amounts: Seq<U256>,
) -> int {
    first_shortfall_from(pre, from, net, ids, amounts, 0)
}

/// An index that fails validation after a clean run of passing ones is
/// the first shortfall.
pub proof fn lemma_first_shortfall_pins(
    pre: ERC1155Token,
    from: Account,
    net: bool,
    ids: Seq<U256>,
    amounts: Seq<U256>,
    i: int,
    k: int,
)
    requires
        0 <= i <= k < ids.len(),
        forall|m: int|
            i <= m < k ==> #[trigger] step_balance(pre, from, net, ids, amounts, m)
                >= amounts[m].as_nat(),
        step_balance(pre, from, net, ids, amounts, k) < amounts[k].as_nat(),
    ensures
        first_shortfall_from(pre, from, net, ids, amounts, i) == k,
    decreases k - i,
{
    if i < k {
        lemma_first_shortfall_pins(pre, from, net, ids, amounts, i + 1, k);
    }
}

/// The effect of one successful batch transfer: for each account and id,
/// the balance moves by the batch total for that id (in for the receiver,
/// out of the sender; nothing at all when they coincide), everything else
/// is untouched, and one batch event carrying the full arrays is logged.
pub open spec fn batch_transfer_applied(
    pre: ERC1155Token,
    post: ERC1155Token,
    operator: Account,
    from: Account,
    to: Account,
    ids: Vec<U256>,
    amounts: Vec<U256>,
) -> bool {
    &&& forall|a: Account, j: U256|
        #[trigger] post.bal(a, j) as int == pre.bal(a, j) + (if a == to {
            added_before(ids@, amounts@, ids@.len() as int, j) as int
        } else {
            0
        }) - (if a == from {
            added_before(ids@, amounts@, ids@.len() as int, j) as int
        } else {
            0
        })
    &&& post.total_supply@ == pre.total_supply@
    &&& post.token_exists@ == pre.token_exists@
    &&& post.operator_approvals@ == pre.operator_approvals@
    &&& same_admin(pre, post)
    &&& post.events@ == pre.events@.push(
        Event::TransferBatch { operator, from, to, ids, values: amounts },
    )
}

impl ERC1155Token {
    /// Validate and apply a batch transfer, index by index in input order,
    /// each index seeing the cumulative effect of the previous ones. The
    /// whole batch applies, or — on the first insufficient balance — none
    /// of it does.
    fn batch_transfer_internal(
        &mut self,
        operator: Account,
        from: Account,
        to: Account,
        ids: Vec<U256>,
        amounts: Vec<U256>,
    ) -> (r: Result<(), Error>)
        requires
            old(self).wf(),
            ids@.len() == amounts@.len(),
        ensures
            final(self).wf(),
            ({
                let pre = *old(self);
                let post = *final(self);
                let net = from != to;
                if from.is_null() {
                    r == Err::<(), Error>(Error::InvalidSender { sender: from }) && post == pre
                } else if to.is_null() {
                    r == Err::<(), Error>(Error::InvalidReceiver { receiver: to }) && post == pre
                } else if !steps_ok(pre, from, net, ids@, amounts@, ids@.len() as int) {
                    let k = first_shortfall(pre, from, net, ids@, amounts@);
                    r == Err::<(), Error>(
                        Error::InsufficientBalance {
                            sender: from,
                            balance: U256::of_nat(
                                step_balance(pre, from, net, ids@, amounts@, k) as nat,
                            ),
                            needed: amounts@[k],
                            token_id: ids@[k],
                        },
                    ) && post == pre
                } else {
                    r == Ok::<(), Error>(()) && batch_transfer_applied(
                        pre,
                        post,
                        operator,
                        from,
                        to,
                        ids,
                        amounts,
                    )
                }
            }),
    {
        if from == Account::null() {
            return Err(Error::InvalidSender { sender: from });
        }
        if to == Account::null() {
            return Err(Error::InvalidReceiver { receiver: to });
        }
        let ghost pre = *self;
        let ghost net = from != to;
        let n = ids.len();
        let mut bals = crate::ledger::copy_balance_entries(&self.balances);
        let mut i: usize = 0;
        while i < n
            invariant
                n == ids@.len(),
                ids@.len() == amounts@.len(),
                i <= n,
                pre == *self,
                pre.wf(),
                net == (from != to),
                !from.is_null(),
                !to.is_null(),
                balance_keys_unique(bals@),
                forall|a: Account, j: U256|
                    (#[trigger] lookup_balance(bals@, a, j)).as_nat() as int == pre.bal(a, j) + (
                    if a == to {
                        added_before(ids@, amounts@, i as int, j) as int
                    } else {
                        0
                    }) - (if a == from {
                        added_before(ids@, amounts@, i as int, j) as int
                    } else {
                        0
                    }),
                forall|j: U256| #[trigger] sum_for(bals@, j) == sum_for(pre.balances@, j),
                steps_ok(pre, from, net, ids@, amounts@, i as int),
            decreases n - i,
        {
            let id = ids[i];
            let amount = amounts[i];
            let from_balance = get_balance(&bals, from, id);
            proof {
                assert(from_balance.as_nat() as int == step_balance(
                    pre,
                    from,
                    net,
                    ids@,
                    amounts@,
                    i as int,
                ));
            }
            if from_balance.lt(&amount) {
                proof {
                    assert(!steps_ok(pre, from, net, ids@, amounts@, n as int));
                    lemma_first_shortfall_pins(pre, from, net, ids@, amounts@, 0, i as int);
                    from_balance.lemma_of_nat_as_nat();
                }
                return Err(Error::InsufficientBalance {
                    sender: from,
                    balance: from_balance,
                    needed: amount,
                    token_id: id,
                });
            }
            let ghost bals0 = bals@;
            set_balance(&mut bals, from, id, from_balance.minus(amount));
            let ghost bals1 = bals@;
            let to_balance = get_balance(&bals, to, id);
            proof {
                lemma_lookup_le_sum(bals1, to, id);
                assert(sum_for(bals1, id) + from_balance.as_nat() == sum_for(bals0, id) + (
                from_balance.as_nat() - amount.as_nat()));
                assert(sum_for(pre.balances@, id) == pre.supply(id));
            }
            set_balance(&mut bals, to, id, to_balance.plus(amount));
            proof {
                assert forall|a: Account, j: U256|
                    (#[trigger] lookup_balance(bals@, a, j)).as_nat() as int == pre.bal(a, j) + (
                    if a == to {
                        added_before(ids@, amounts@, i + 1 as int, j) as int
                    } else {
                        0
                    }) - (if a == from {
                        added_before(ids@, amounts@, i + 1 as int, j) as int
                    } else {
                        0
                    }) by {
                    if !(a == to && j == id) && !(a == from && j == id) {
                        assert(lookup_balance(bals@, a, j) == lookup_balance(bals1, a, j));
                        assert(lookup_balance(bals1, a, j) == lookup_balance(bals0, a, j));
                    } else if a == from && j == id && !(a == to) {
                        assert(lookup_balance(bals@, a, j) == lookup_balance(bals1, a, j));
                    }
                }
                assert forall|j: U256| #[trigger] sum_for(bals@, j) == sum_for(
                    pre.balances@,
                    j,
                ) by {
                    assert(sum_for(bals0, j) == sum_for(pre.balances@, j));
                }
            }
            i = i + 1;
        }
        self.balances = bals;
        self.events.push(Event::TransferBatch { operator, from, to, ids, values: amounts });
        proof {
            assert forall|j: U256| sum_for(self.balances@, j) == self.supply(j) by {
                assert(sum_for(pre.balances@, j) == pre.supply(j));
            }
        }
        Ok(())
    }

    /// Batch-move tokens from `from` to `to` on behalf of `caller`:
    /// rejected while paused, on a length mismatch, without authorization,
    /// for null accounts, or — rolling the whole batch back — on the first
    /// index whose cumulative balance is short.
    pub fn safe_batch_transfer_from(
        &mut self,
        caller: Account,
        from: Account,
        to: Account,
        ids: Vec<U256>,
        amounts: Vec<U256>,
        _data: Vec<u8>,
    ) -> (r: Result<(), Error>)
        requires
            old(self).wf(),
        ensures
            final(self).wf(),
            ({
                let pre = *old(self);
                let post = *final(self);
                let net = from != to;
                if pre.paused {
                    r == Err::<(), Error>(Error::EnforcedPause) && post == pre
                } else if ids@.len() != amounts@.len() {
                    r == Err::<(), Error>(
                        Error::InvalidArrayLength {
                            ids_length: ids.len(),
                            values_length: amounts.len(),
                        },
                    ) && post == pre
                } else if !pre.authorized(caller, from) {
                    r == Err::<(), Error>(
                        Error::MissingApprovalForAll { operator: caller, owner: from },
                    ) && post == pre
                } else if from.is_null() {
                    r == Err::<(), Error>(Error::InvalidSender { sender: from }) && post == pre
                } else if to.is_null() {
                    r == Err::<(), Error>(Error::InvalidReceiver { receiver: to }) && post == pre
                } else if !steps_ok(pre, from, net, ids@, amounts@, ids@.len() as int) {
                    let k = first_shortfall(pre, from, net, ids@, amounts@);
                    r == Err::<(), Error>(
                        Error::InsufficientBalance {
                            sender: from,
                            balance: U256::of_nat(
                                step_balance(pre, from, net, ids@, amounts@, k) as nat,
                            ),
                            needed: amounts@[k],
                            token_id: ids@[k],
                        },
                    ) && post == pre
                } else {
                    r == Ok::<(), Error>(()) && batch_transfer_applied(
                        pre,
                        post,
                        caller,
                        from,
                        to,
                        ids,
                        amounts,
                    )
                }
            }),
    {
        match self.require_not_paused() {
            Err(e) => {
                return Err(e);
            },
            Ok(()) => {},
        }
        if ids.len() != amounts.len() {
            return Err(Error::InvalidArrayLength {
                ids_length: ids.len(),
                values_length: amounts.len(),
            });
        }
        if from != caller && !self.is_approved_for_all(from, caller) {
            return Err(Error::MissingApprovalForAll { operator: caller, owner: from });
        }
        self.batch_transfer_internal(caller, from, to, ids, amounts)
    }
}

} // verus!

verus! {

/// The effect of one successful batch mint: for each id, the receiver's
/// balance and the supply grow by the batch total, every id named is
/// marked existing, and one batch event from the null account is logged.
pub open spec fn batch_mint_applied(
    pre: ERC1155Token,
    post: ERC1155Token,
    operator: Account,
    to: Account,
    ids: Vec<U256>,
    amounts: Vec<U256>,
) -> bool {
    &&& forall|a: Account, j: U256|
        #[trigger] post.bal(a, j) == pre.bal(a, j) + (if a == to {
            added_before(ids@, amounts@, ids@.len() as int, j)
        } else {
            0
        })
    &&& forall|j: U256|
        #[trigger] post.supply(j) == pre.supply(j) + added_before(ids@, amounts@, ids@.len() as int, j)
    &&& forall|j: U256| #[trigger] post.token_known(j) <==> (pre.token_known(j) || ids@.contains(j))
    &&& post.operator_approvals@ == pre.operator_approvals@
    &&& same_admin(pre, post)
    &&& post.events@ == pre.events@.push(
        Event::TransferBatch { operator, from: Account::null_spec(), to, ids, values: amounts },
    )
}

/// The effect of one successful batch burn: for each id, the holder's
/// balance and the supply shrink by the batch total, the existence flags
/// are untouched, and one batch event to the null account is logged.
pub open spec fn batch_burn_applied(
    pre: ERC1155Token,
    post: ERC1155Token,
    operator: Account,
    from: Account,
    ids: Vec<U256>,
    amounts: Vec<U256>,
) -> bool {
    &&& forall|a: Account, j: U256|
        #[trigger] post.bal(a, j) as int == pre.bal(a, j) - (if a == from {
            added_before(ids@, amounts@, ids@.len() as int, j) as int
        } else {
            0
        })
    &&& forall|j: U256|
        #[trigger] post.supply(j) as int == pre.supply(j) - added_before(
            ids@,
            amounts@,
            ids@.len() as int,
            j,
        ) as int
    &&& post.token_exists@ == pre.token_exists@
    &&& post.operator_approvals@ == pre.operator_approvals@
    &&& same_admin(pre, post)
    &&& post.events@ == pre.events@.push(
        Event::TransferBatch { operator, from, to: Account::null_spec(), ids, values: amounts },
    )
}

impl ERC1155Token {
    /// Validate and apply a batch mint: receiver non-null, then per index
    /// credit the balance, raise the supply and mark the id existing; one
    /// batch event at the end.
    fn batch_mint_internal(
        &mut self,
        operator: Account,
        to: Account,
        ids: Vec<U256>,
        amounts: Vec<U256>,
    ) -> (r: Result<(), Error>)
        requires
            old(self).wf(),
            ids@.len() == amounts@.len(),
            !to.is_null() ==> forall|j: U256|
                old(self).supply(j) + added_before(ids@, amounts@, ids@.len() as int, j)
                    < u256_bound(),
        ensures
            final(self).wf(),
            ({
                let pre = *old(self);
                let post = *final(self);
                if to.is_null() {
                    r == Err::<(), Error>(Error::InvalidReceiver { receiver: to }) && post == pre
                } else {
                    r == Ok::<(), Error>(()) && batch_mint_applied(
                        pre,
                        post,
                        operator,
                        to,
                        ids,
                        amounts,
                    )
                }
            }),
    {
        if to == Account::null() {
            return Err(Error::InvalidReceiver { receiver: to });
        }
        let ghost pre = *self;
        let n = ids.len();
        let mut i: usize = 0;
        while i < n
            invariant
                n == ids@.len(),
                ids@.len() == amounts@.len(),
                i <= n,
                pre.wf(),
                !to.is_null(),
                forall|j: U256|
                    pre.supply(j) + added_before(ids@, amounts@, n as int, j) < u256_bound(),
                balance_keys_unique(self.balances@),
                supply_keys_unique(self.total_supply@),
                approval_keys_unique(self.operator_approvals@),
                forall|a: Account, j: U256|
                    (#[trigger] lookup_balance(self.balances@, a, j)).as_nat() == pre.bal(a, j) + (
                    if a == to {
                        added_before(ids@, amounts@, i as int, j)
                    } else {
                        0
                    }),
                forall|j: U256|
                    (#[trigger] lookup_supply(self.total_supply@, j)).as_nat() == pre.supply(j)
                        + added_before(ids@, amounts@, i as int, j),
                forall|j: U256|
                    #[trigger] self.token_exists@.contains(j) <==> (pre.token_known(j) || exists|m: int|
                        0 <= m < i && ids@[m] == j),
                forall|j: U256| #[trigger] sum_for(self.balances@, j) == self.supply(j),
                self.operator_approvals@ == pre.operator_approvals@,
                self.events@ == pre.events@,
                same_admin(pre, *self),
            decreases n - i,
        {
            let id = ids[i];
            let amount = amounts[i];
            let balance = get_balance(&self.balances, to, id);
            proof {
                lemma_lookup_le_sum(self.balances@, to, id);
                lemma_added_before_mono(ids@, amounts@, i + 1 as int, n as int, id);
            }
            set_balance(&mut self.balances, to, id, balance.plus(amount));
            let supply = get_supply(&self.total_supply, id);
            set_supply(&mut self.total_supply, id, supply.plus(amount));
            insert_id(&mut self.token_exists, id);
            proof {
                assert forall|j: U256|
                    #[trigger] self.token_exists@.contains(j) <==> (pre.token_known(j) || exists|m: int|
                        0 <= m < i + 1 && ids@[m] == j) by {
                    if self.token_exists@.contains(j) {
                        if !pre.token_known(j) {
                            if j == id {
                                assert(ids@[i as int] == j);
                            }
                        }
                    }
                }
            }
            i = i + 1;
        }
        self.events.push(Event::TransferBatch {
            operator,
            from: Account::null(),
            to,
            ids,
            values: amounts,
        });
        Ok(())
    }

    /// Batch mint to `to` on behalf of `caller`: owner-gated, pause-gated
    /// and length-checked. The caller shows every named id's supply stays
    /// below 2^256 whenever the guards would let the mint through.
    pub fn mint_batch(
        &mut self,
        caller: Account,
        to: Account,
        ids: Vec<U256>,
        amounts: Vec<U256>,
        _data: Vec<u8>,
    ) -> (r: Result<(), Error>)
        requires
            old(self).wf(),
            caller == old(self).owner && !old(self).paused && ids@.len() == amounts@.len()
                && !to.is_null() ==> forall|j: U256|
                old(self).supply(j) + added_before(ids@, amounts@, ids@.len() as int, j)
                    < u256_bound(),
        ensures
            final(self).wf(),
            ({
                let pre = *old(self);
                let post = *final(self);
                if caller != pre.owner {
                    r == Err::<(), Error>(Error::UnauthorizedAccount { account: caller }) && post
                        == pre
                } else if pre.paused {
                    r == Err::<(), Error>(Error::EnforcedPause) && post == pre
                } else if ids@.len() != amounts@.len() {
                    r == Err::<(), Error>(
                        Error::InvalidArrayLength {
                            ids_length: ids.len(),
                            values_length: amounts.len(),
                        },
                    ) && post == pre
                } else if to.is_null() {
                    r == Err::<(), Error>(Error::InvalidReceiver { receiver: to }) && post == pre
                } else {
                    r == Ok::<(), Error>(()) && batch_mint_applied(
                        pre,
                        post,
                        caller,
                        to,
                        ids,
                        amounts,
                    )
                }
            }),
    {
        match self.require_owner(caller) {
            Err(e) => {
                return Err(e);
            },
            Ok(()) => {},
        }
        match self.require_not_paused() {
            Err(e) => {
                return Err(e);
            },
            Ok(()) => {},
        }
        if ids.len() != amounts.len() {
            return Err(Error::InvalidArrayLength {
                ids_length: ids.len(),
                values_length: amounts.len(),
            });
        }
        self.batch_mint_internal(caller, to, ids, amounts)
    }

    /// Validate and apply a batch burn, index by index in input order,
    /// each index seeing the cumulative effect of the previous ones. The
    /// whole batch applies, or — on the first insufficient balance — none
    /// of it does.
    fn batch_burn_internal(
        &mut self,
        operator: Account,
        from: Account,
        ids: Vec<U256>,
        amounts: Vec<U256>,
    ) -> (r: Result<(), Error>)
        requires
            old(self).wf(),
            ids@.len() == amounts@.len(),
        ensures
            final(self).wf(),
            ({
                let pre = *old(self);
                let post = *final(self);
                if from.is_null() {
                    r == Err::<(), Error>(Error::InvalidSender { sender: from }) && post == pre
                } else if !steps_ok(pre, from, true, ids@, amounts@, ids@.len() as int) {
                    let k = first_shortfall(pre, from, true, ids@, amounts@);
                    r == Err::<(), Error>(
                        Error::InsufficientBalance {
                            sender: from,
                            balance: U256::of_nat(
                                step_balance(pre, from, true, ids@, amounts@, k) as nat,
                            ),
                            needed: amounts@[k],
                            token_id: ids@[k],
                        },
                    ) && post == pre
                } else {
                    r == Ok::<(), Error>(()) && batch_burn_applied(
                        pre,
                        post,
                        operator,
                        from,
                        ids,
                        amounts,
                    )
                }
            }),
    {
        if from == Account::null() {
            return Err(Error::InvalidSender { sender: from });
        }
        let ghost pre = *self;
        let n = ids.len();
        let mut bals = crate::ledger::copy_balance_entries(&self.balances);
        let mut sups = crate::ledger::copy_supply_entries(&self.total_supply);
        let mut i: usize = 0;
        while i < n
            invariant
                n == ids@.len(),
                ids@.len() == amounts@.len(),
                i <= n,
                pre == *self,
                pre.wf(),
                !from.is_null(),
                balance_keys_unique(bals@),
                supply_keys_unique(sups@),
                forall|a: Account, j: U256|
                    (#[trigger] lookup_balance(bals@, a, j)).as_nat() + (if a == from {
                        added_before(ids@, amounts@, i as int, j)
                    } else {
                        0
                    }) == pre.bal(a, j),
                forall|j: U256|
                    (#[trigger] lookup_supply(sups@, j)).as_nat() + added_before(
                        ids@,
                        amounts@,
                        i as int,
                        j,
                    ) == pre.supply(j),
                forall|j: U256| #[trigger] sum_for(bals@, j) + added_before(
                    ids@,
                    amounts@,
                    i as int,
                    j,
                ) == sum_for(pre.balances@, j),
                steps_ok(pre, from, true, ids@, amounts@, i as int),
            decreases n - i,
        {
            let id = ids[i];
            let amount = amounts[i];
            let balance = get_balance(&bals, from, id);
            proof {
                assert(balance.as_nat() as int == step_balance(
                    pre,
                    from,
                    true,
                    ids@,
                    amounts@,
                    i as int,
                ));
            }
            if balance.lt(&amount) {
                proof {
                    assert(!steps_ok(pre, from, true, ids@, amounts@, n as int));
                    lemma_first_shortfall_pins(pre, from, true, ids@, amounts@, 0, i as int);
                    balance.lemma_of_nat_as_nat();
                }
                return Err(Error::InsufficientBalance {
                    sender: from,
                    balance,
                    needed: amount,
                    token_id: id,
                });
            }
            let ghost bals0 = bals@;
            proof {
                lemma_lookup_le_sum(bals0, from, id);
            }
            set_balance(&mut bals, from, id, balance.minus(amount));
            let supply = get_supply(&sups, id);
            set_supply(&mut sups, id, supply.minus(amount));
            i = i + 1;
        }
        self.balances = bals;
        self.total_supply = sups;
        self.events.push(Event::TransferBatch {
            operator,
            from,
            to: Account::null(),
            ids,
            values: amounts,
        });
        proof {
            assert forall|j: U256| sum_for(self.balances@, j) == self.supply(j) by {
                assert(sum_for(self.balances@, j) + added_before(ids@, amounts@, n as int, j)
                    == sum_for(pre.balances@, j));
            }
        }
        Ok(())
    }

    /// Batch-burn the caller's own tokens: pause-gated, length-checked,
    /// and — rolling the whole batch back — rejected on the first index
    /// whose cumulative balance is short.
    pub fn burn_batch(&mut self, caller: Account, ids: Vec<U256>, amounts: Vec<U256>) -> (r: Result<
        (),
        Error,
    >)
        requires
            old(self).wf(),
        ensures
            final(self).wf(),
            ({
                let pre = *old(self);
                let post = *final(self);
                if pre.paused {
                    r == Err::<(), Error>(Error::EnforcedPause) && post == pre
                } else if ids@.len() != amounts@.len() {
                    r == Err::<(), Error>(
                        Error::InvalidArrayLength {
                            ids_length: ids.len(),
                            values_length: amounts.len(),
                        },
                    ) && post == pre
                } else if caller.is_null() {
                    r == Err::<(), Error>(Error::InvalidSender { sender: caller }) && post == pre
                } else if !steps_ok(pre, caller, true, ids@, amounts@, ids@.len() as int) {
                    let k = first_shortfall(pre, caller, true, ids@, amounts@);
                    r == Err::<(), Error>(
                        Error::InsufficientBalance {
                            sender: caller,
                            balance: U256::of_nat(
                                step_balance(pre, caller, true, ids@, amounts@, k) as nat,
                            ),
                            needed: amounts@[k],
                            token_id: ids@[k],
                        },
                    ) && post == pre
                } else {
                    r == Ok::<(), Error>(()) && batch_burn_applied(
                        pre,
                        post,
                        caller,
                        caller,
                        ids,
                        amounts,
                    )
                }
            }),
    {
        match self.require_not_paused() {
            Err(e) => {
                return Err(e);
            },
            Ok(()) => {},
        }
        if ids.len() != amounts.len() {
            return Err(Error::InvalidArrayLength {
                ids_length: ids.len(),
                values_length: amounts.len(),
            });
        }
        self.batch_burn_internal(caller, caller, ids, amounts)
    }
}

} // verus!

verus! {

impl ERC1155Token {
    /// The metadata URI of a token id: a pure derivation, the base
    /// template followed by the decimal id and the ".json" suffix.
    pub fn uri(&self, id: U256) -> (r: String)
        ensures
            r@ == self.base_uri@ + crate::decimal::dec_str(id.as_nat()) + ".json"@,
    {
        let mut s = self.base_uri.clone();
        let digits = crate::decimal::decimal_string(id);
        s.append(digits.as_str());
        s.append(".json");
        proof {
            assert(s@ =~= self.base_uri@ + crate::decimal::dec_str(id.as_nat()) + ".json"@);
        }
        s
    }
}

} // verus!
