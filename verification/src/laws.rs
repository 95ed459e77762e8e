//! The library's laws: properties that hold across states and across
//! sequences of calls, proved from the contracts of the entry points.
//! Each transition hypothesis below (`single_transfer_applied`,
//! `burn_applied`, ...) is exactly what the corresponding entry point
//! ensures on success, so these lemmas speak about any run of calls.

use vstd::prelude::*;
use crate::account::Account;
use crate::quantity::U256;
use crate::ledger::{lemma_lookup_le_sum, sum_for};
use crate::token::{
    ERC1155Token, approval_updated, batch_burn_applied, batch_transfer_applied, burn_applied,
    single_transfer_applied,
};

verus! {

/// Conservation: in a well-formed state — and every entry point both
/// requires and re-establishes well-formedness — the balances recorded
/// for a token id sum to exactly its recorded total supply.
pub proof fn lemma_conservation(s: ERC1155Token, id: U256)
    requires
        s.wf(),
    ensures
        sum_for(s.balances@, id) == s.supply(id),
{
}

/// Non-negativity's flip side: no single balance can exceed its token's
/// total supply, so a supply-sized debit can never drive one negative.
/// (Balances are unsigned by construction; operations that cannot cover
/// a debit fail, per their contracts, before writing anything.)
pub proof fn lemma_balance_le_supply(s: ERC1155Token, a: Account, id: U256)
    requires
        s.wf(),
    ensures
        s.bal(a, id) <= s.supply(id),
{
    lemma_lookup_le_sum(s.balances@, a, id);
}

/// A transfer moves balances only: no token id's total supply changes.
pub proof fn lemma_transfer_preserves_supply(
    pre: ERC1155Token,
    post: ERC1155Token,
    operator: Account,
    from: Account,
    to: Account,
    id: U256,
    amount: U256,
    j: U256,
)
    requires
        single_transfer_applied(pre, post, operator, from, to, id, amount),
    ensures
        post.supply(j) == pre.supply(j),
{
}

/// A batch transfer moves balances only: no token id's total supply
/// changes, however the batch repeats or aliases its ids.
pub proof fn lemma_batch_transfer_preserves_supply(
    pre: ERC1155Token,
    post: ERC1155Token,
    operator: Account,
    from: Account,
    to: Account,
    ids: Vec<U256>,
    amounts: Vec<U256>,
    j: U256,
)
    requires
        batch_transfer_applied(pre, post, operator, from, to, ids, amounts),
    ensures
        post.supply(j) == pre.supply(j),
{
}

/// Granting or revoking consent reads back exactly as granted: after a
/// successful `set_approval_for_all(operator, v)` by `owner`, a query
/// `is_approved_for_all(owner, operator)` — which returns
/// `approved(owner, operator)` by its contract — answers `v`, and no
/// other pair's consent has moved.
pub proof fn lemma_approval_round_trip(
    pre: ERC1155Token,
    post: ERC1155Token,
    owner: Account,
    operator: Account,
    v: bool,
)
    requires
        approval_updated(pre, post, owner, operator, v),
    ensures
        post.approved(owner, operator) == v,
        forall|x: Account, y: Account|
            !(x == owner && y == operator) ==> #[trigger] post.approved(x, y) == pre.approved(
                x,
                y,
            ),
{
}

/// Granting consent and then revoking it restores every consent to what
/// it was before the grant.
pub proof fn lemma_approval_revoke_restores(
    s0: ERC1155Token,
    s1: ERC1155Token,
    s2: ERC1155Token,
    owner: Account,
    operator: Account,
)
    requires
        approval_updated(s0, s1, owner, operator, true),
        approval_updated(s1, s2, owner, operator, false),
    ensures
        !s2.approved(owner, operator),
        forall|x: Account, y: Account|
            !(x == owner && y == operator) ==> #[trigger] s2.approved(x, y) == s0.approved(x, y),
{
}

/// Existence is monotone under burning: a burn — even of a token's whole
/// remaining supply — leaves every existence flag exactly as it was.
pub proof fn lemma_burn_preserves_existence(
    pre: ERC1155Token,
    post: ERC1155Token,
    operator: Account,
    from: Account,
    id: U256,
    amount: U256,
    j: U256,
)
    requires
        burn_applied(pre, post, operator, from, id, amount),
        pre.token_known(j),
    ensures
        post.token_known(j),
{
}

/// Existence is monotone under batch burning as well.
pub proof fn lemma_batch_burn_preserves_existence(
    pre: ERC1155Token,
    post: ERC1155Token,
    operator: Account,
    from: Account,
    ids: Vec<U256>,
    amounts: Vec<U256>,
    j: U256,
)
    requires
        batch_burn_applied(pre, post, operator, from, ids, amounts),
        pre.token_known(j),
    ensures
        post.token_known(j),
{
}

} // verus!
