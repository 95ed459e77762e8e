//! The persistent key-value stores: balances keyed by (account, token id),
//! supplies keyed by token id, approvals keyed by (owner, operator).
//! Each store is a vector of entries with pairwise-distinct keys; a key
//! that is absent reads as zero (or false). Entries are created on first
//! write and never removed: a balance driven to zero stays as a
//! present-but-zero entry, which reads the same as an absent one.

use vstd::prelude::*;
use crate::account::Account;
use crate::quantity::U256;

verus! {

#[derive(Clone, Copy, PartialEq, Eq, Structural, Debug)]
pub struct BalanceEntry {
    pub account: Account,
    pub id: U256,
    pub amount: U256,
}

#[derive(Clone, Copy, PartialEq, Eq, Structural, Debug)]
pub struct SupplyEntry {
    pub id: U256,
    pub amount: U256,
}

#[derive(Clone, Copy, PartialEq, Eq, Structural, Debug)]
pub struct ApprovalEntry {
    pub owner: Account,
    pub operator: Account,
    pub approved: bool,
}

// ---------------------------------------------------------------------------
// Balances
// ---------------------------------------------------------------------------

/// The balance recorded for (a, id): the first matching entry, or zero.
pub open spec fn lookup_balance(s: Seq<BalanceEntry>, a: Account, id: U256) -> U256
    decreases s.len(),
{
    if s.len() == 0 {
        U256 { lo: 0, hi: 0 }
    } else if s[0].account == a && s[0].id == id {
        s[0].amount
    } else {
        lookup_balance(s.subrange(1, s.len() as int), a, id)
    }
}

/// The sum of all recorded balances for a token id.
pub open spec fn sum_for(s: Seq<BalanceEntry>, id: U256) -> nat
    decreases s.len(),
{
    if s.len() == 0 {
        0
    } else {
        (if s[0].id == id {
            s[0].amount.as_nat()
        } else {
            0
        }) + sum_for(s.subrange(1, s.len() as int), id)
    }
}

pub open spec fn balance_keys_unique(s: Seq<BalanceEntry>) -> bool {
    forall|p: int, q: int|
        0 <= p < q < s.len() ==> !(#[trigger] s[p].account == #[trigger] s[q].account
            && s[p].id == s[q].id)
}

/// A lookup ignores a prefix free of its key.
pub proof fn lemma_lookup_balance_skip(s: Seq<BalanceEntry>, a: Account, id: U256, i: int)
    requires
        0 <= i <= s.len(),
        forall|k: int| 0 <= k < i ==> !((#[trigger] s[k]).account == a && s[k].id == id),
    ensures
        lookup_balance(s, a, id) == lookup_balance(s.subrange(i, s.len() as int), a, id),
    decreases i,
{
    if i == 0 {
        assert(s.subrange(0, s.len() as int) =~= s);
    } else {
        lemma_lookup_balance_skip(s, a, id, i - 1);
        let sub = s.subrange(i - 1, s.len() as int);
        assert(sub[0] == s[i - 1]);
        assert(sub.subrange(1, sub.len() as int) =~= s.subrange(i, s.len() as int));
    }
}

/// Replacing an entry whose old and new key both differ from (x, j)
/// leaves the (x, j) lookup unchanged.
pub proof fn lemma_lookup_balance_update_other(
    s: Seq<BalanceEntry>,
    i: int,
    e: BalanceEntry,
    x: Account,
    j: U256,
)
    requires
        0 <= i < s.len(),
        !(s[i].account == x && s[i].id == j),
        !(e.account == x && e.id == j),
    ensures
        lookup_balance(s.update(i, e), x, j) == lookup_balance(s, x, j),
    decreases s.len(),
{
    let t = s.update(i, e);
    if i == 0 {
        assert(t.subrange(1, t.len() as int) =~= s.subrange(1, s.len() as int));
    } else {
        assert(t[0] == s[0]);
        if !(s[0].account == x && s[0].id == j) {
            assert(t.subrange(1, t.len() as int) =~= s.subrange(1, s.len() as int).update(
                i - 1,
                e,
            ));
            lemma_lookup_balance_update_other(s.subrange(1, s.len() as int), i - 1, e, x, j);
        }
    }
}

/// Appending an entry with a key other than (x, j) leaves the (x, j)
/// lookup unchanged.
pub proof fn lemma_lookup_balance_push_other(
    s: Seq<BalanceEntry>,
    e: BalanceEntry,
    x: Account,
    j: U256,
)
    requires
        !(e.account == x && e.id == j),
    ensures
        lookup_balance(s.push(e), x, j) == lookup_balance(s, x, j),
    decreases s.len(),
{
    let t = s.push(e);
    if s.len() == 0 {
        assert(t[0] == e);
        assert(t.subrange(1, t.len() as int) =~= Seq::<BalanceEntry>::empty());
        assert(lookup_balance(Seq::<BalanceEntry>::empty(), x, j) == (U256 { lo: 0, hi: 0 }));
    } else {
        assert(t[0] == s[0]);
        if !(s[0].account == x && s[0].id == j) {
            assert(t.subrange(1, t.len() as int) =~= s.subrange(1, s.len() as int).push(e));
            lemma_lookup_balance_push_other(s.subrange(1, s.len() as int), e, x, j);
        }
    }
}

/// Appending an entry under a fresh key makes its amount the lookup result.
pub proof fn lemma_lookup_balance_push_self(s: Seq<BalanceEntry>, e: BalanceEntry)
    requires
        forall|k: int|
            0 <= k < s.len() ==> !((#[trigger] s[k]).account == e.account && s[k].id == e.id),
    ensures
        lookup_balance(s.push(e), e.account, e.id) == e.amount,
    decreases s.len(),
{
    let t = s.push(e);
    if s.len() == 0 {
        assert(t[0] == e);
    } else {
        assert(t[0] == s[0]);
        let tail = s.subrange(1, s.len() as int);
        assert(t.subrange(1, t.len() as int) =~= tail.push(e));
        assert forall|k: int|
            0 <= k < tail.len() implies !((#[trigger] tail[k]).account == e.account
            && tail[k].id == e.id) by {
            assert(tail[k] == s[k + 1]);
        }
        lemma_lookup_balance_push_self(tail, e);
    }
}

/// How replacing one entry moves the per-id balance sum.
pub proof fn lemma_sum_update(s: Seq<BalanceEntry>, i: int, e: BalanceEntry, j: U256)
    requires
        0 <= i < s.len(),
    ensures
        sum_for(s.update(i, e), j) + (if s[i].id == j {
            s[i].amount.as_nat()
        } else {
            0
        }) == sum_for(s, j) + (if e.id == j {
            e.amount.as_nat()
        } else {
            0
        }),
    decreases s.len(),
{
    let t = s.update(i, e);
    if i == 0 {
        assert(t.subrange(1, t.len() as int) =~= s.subrange(1, s.len() as int));
    } else {
        assert(t[0] == s[0]);
        assert(t.subrange(1, t.len() as int) =~= s.subrange(1, s.len() as int).update(i - 1, e));
        lemma_sum_update(s.subrange(1, s.len() as int), i - 1, e, j);
    }
}

/// How appending one entry moves the per-id balance sum.
pub proof fn lemma_sum_push(s: Seq<BalanceEntry>, e: BalanceEntry, j: U256)
    ensures
        sum_for(s.push(e), j) == sum_for(s, j) + (if e.id == j {
            e.amount.as_nat()
        } else {
            0
        }),
    decreases s.len(),
{
    let t = s.push(e);
    if s.len() == 0 {
        assert(t[0] == e);
        assert(t.subrange(1, t.len() as int) =~= Seq::<BalanceEntry>::empty());
        assert(sum_for(Seq::<BalanceEntry>::empty(), j) == 0);
    } else {
        assert(t[0] == s[0]);
        assert(t.subrange(1, t.len() as int) =~= s.subrange(1, s.len() as int).push(e));
        lemma_sum_push(s.subrange(1, s.len() as int), e, j);
    }
}

/// No single balance exceeds the sum of balances for its id.
pub proof fn lemma_lookup_le_sum(s: Seq<BalanceEntry>, a: Account, id: U256)
    ensures
        lookup_balance(s, a, id).as_nat() <= sum_for(s, id),
    decreases s.len(),
{
    if s.len() > 0 {
        lemma_lookup_le_sum(s.subrange(1, s.len() as int), a, id);
    }
}

/// First index whose entry is keyed (a, id), if any.
fn find_balance_index(v: &Vec<BalanceEntry>, a: Account, id: U256) -> (r: Option<usize>)
    ensures
        match r {
            Some(i) => i < v@.len() && v@[i as int].account == a && v@[i as int].id == id
                && forall|k: int|
                0 <= k < i ==> !((#[trigger] v@[k]).account == a && v@[k].id == id),
            None => forall|k: int|
                0 <= k < v@.len() ==> !((#[trigger] v@[k]).account == a && v@[k].id == id),
        },
{
    let n = v.len();
    let mut i: usize = 0;
    while i < n
        invariant
            n == v@.len(),
            i <= n,
            forall|k: int| 0 <= k < i ==> !((#[trigger] v@[k]).account == a && v@[k].id == id),
        decreases n - i,
    {
        let e = v[i];
        if e.account == a && e.id == id {
            return Some(i);
        }
        i = i + 1;
    }
    None
}

/// The balance recorded for (a, id), zero when absent.
pub fn get_balance(v: &Vec<BalanceEntry>, a: Account, id: U256) -> (r: U256)
    ensures
        r == lookup_balance(v@, a, id),
{
    match find_balance_index(v, a, id) {
        Some(i) => {
            proof {
                lemma_lookup_balance_skip(v@, a, id, i as int);
            }
            let e = v[i];
            e.amount
        },
        None => {
            proof {
                lemma_lookup_balance_skip(v@, a, id, v@.len() as int);
            }
            U256::zero()
        },
    }
}

/// Record `val` as the balance of (a, id), updating in place or creating
/// the entry. Every other balance, and the sum for every other id, is
/// untouched; the sum for `id` moves by the difference.
pub fn set_balance(v: &mut Vec<BalanceEntry>, a: Account, id: U256, val: U256)
    requires
        balance_keys_unique(old(v)@),
    ensures
        balance_keys_unique(final(v)@),
        lookup_balance(final(v)@, a, id) == val,
        forall|x: Account, j: U256|
            !(x == a && j == id) ==> lookup_balance(final(v)@, x, j) == lookup_balance(
                old(v)@,
                x,
                j,
            ),
        forall|j: U256| j != id ==> sum_for(final(v)@, j) == sum_for(old(v)@, j),
        sum_for(final(v)@, id) + lookup_balance(old(v)@, a, id).as_nat() == sum_for(old(v)@, id)
            + val.as_nat(),
{
    let ghost s0 = v@;
    let e = BalanceEntry { account: a, id, amount: val };
    match find_balance_index(v, a, id) {
        Some(i) => {
            v[i] = e;
            proof {
                lemma_lookup_balance_skip(s0, a, id, i as int);
                lemma_lookup_balance_skip(v@, a, id, i as int);
                assert(v@.subrange(i as int, v@.len() as int)[0] == e);
                assert forall|x: Account, j: U256| !(x == a && j == id) implies lookup_balance(
                    v@,
                    x,
                    j,
                ) == lookup_balance(s0, x, j) by {
                    lemma_lookup_balance_update_other(s0, i as int, e, x, j);
                }
                assert forall|j: U256| j != id implies sum_for(v@, j) == sum_for(s0, j) by {
                    lemma_sum_update(s0, i as int, e, j);
                }
                lemma_sum_update(s0, i as int, e, id);
            }
        },
        None => {
            v.push(e);
            proof {
                lemma_lookup_balance_skip(s0, a, id, s0.len() as int);
                lemma_lookup_balance_push_self(s0, e);
                assert forall|x: Account, j: U256| !(x == a && j == id) implies lookup_balance(
                    v@,
                    x,
                    j,
                ) == lookup_balance(s0, x, j) by {
                    lemma_lookup_balance_push_other(s0, e, x, j);
                }
                assert forall|j: U256| j != id implies sum_for(v@, j) == sum_for(s0, j) by {
                    lemma_sum_push(s0, e, j);
                }
                lemma_sum_push(s0, e, id);
            }
        },
    }
}

// ---------------------------------------------------------------------------
// Supplies
// ---------------------------------------------------------------------------

/// The total supply recorded for a token id: first matching entry, or zero.
pub open spec fn lookup_supply(s: Seq<SupplyEntry>, id: U256) -> U256
    decreases s.len(),
{
    if s.len() == 0 {
        U256 { lo: 0, hi: 0 }
    } else if s[0].id == id {
        s[0].amount
    } else {
        lookup_supply(s.subrange(1, s.len() as int), id)
    }
}

pub open spec fn supply_keys_unique(s: Seq<SupplyEntry>) -> bool {
    forall|p: int, q: int| 0 <= p < q < s.len() ==> !(#[trigger] s[p].id == #[trigger] s[q].id)
}

pub proof fn lemma_lookup_supply_skip(s: Seq<SupplyEntry>, id: U256, i: int)
    requires
        0 <= i <= s.len(),
        forall|k: int| 0 <= k < i ==> (#[trigger] s[k]).id != id,
    ensures
        lookup_supply(s, id) == lookup_supply(s.subrange(i, s.len() as int), id),
    decreases i,
{
    if i == 0 {
        assert(s.subrange(0, s.len() as int) =~= s);
    } else {
        lemma_lookup_supply_skip(s, id, i - 1);
        let sub = s.subrange(i - 1, s.len() as int);
        assert(sub[0] == s[i - 1]);
        assert(sub.subrange(1, sub.len() as int) =~= s.subrange(i, s.len() as int));
    }
}

pub proof fn lemma_lookup_supply_update_other(s: Seq<SupplyEntry>, i: int, e: SupplyEntry, j: U256)
    requires
        0 <= i < s.len(),
        s[i].id != j,
        e.id != j,
    ensures
        lookup_supply(s.update(i, e), j) == lookup_supply(s, j),
    decreases s.len(),
{
    let t = s.update(i, e);
    if i == 0 {
        assert(t.subrange(1, t.len() as int) =~= s.subrange(1, s.len() as int));
    } else {
        assert(t[0] == s[0]);
        if s[0].id != j {
            assert(t.subrange(1, t.len() as int) =~= s.subrange(1, s.len() as int).update(
                i - 1,
                e,
            ));
            lemma_lookup_supply_update_other(s.subrange(1, s.len() as int), i - 1, e, j);
        }
    }
}

pub proof fn lemma_lookup_supply_push_other(s: Seq<SupplyEntry>, e: SupplyEntry, j: U256)
    requires
        e.id != j,
    ensures
        lookup_supply(s.push(e), j) == lookup_supply(s, j),
    decreases s.len(),
{
    let t = s.push(e);
    if s.len() == 0 {
        assert(t[0] == e);
        assert(t.subrange(1, t.len() as int) =~= Seq::<SupplyEntry>::empty());
        assert(lookup_supply(Seq::<SupplyEntry>::empty(), j) == (U256 { lo: 0, hi: 0 }));
    } else {
        assert(t[0] == s[0]);
        if s[0].id != j {
            assert(t.subrange(1, t.len() as int) =~= s.subrange(1, s.len() as int).push(e));
            lemma_lookup_supply_push_other(s.subrange(1, s.len() as int), e, j);
        }
    }
}

pub proof fn lemma_lookup_supply_push_self(s: Seq<SupplyEntry>, e: SupplyEntry)
    requires
        forall|k: int| 0 <= k < s.len() ==> (#[trigger] s[k]).id != e.id,
    ensures
        lookup_supply(s.push(e), e.id) == e.amount,
    decreases s.len(),
{
    let t = s.push(e);
    if s.len() == 0 {
        assert(t[0] == e);
    } else {
        assert(t[0] == s[0]);
        let tail = s.subrange(1, s.len() as int);
        assert(t.subrange(1, t.len() as int) =~= tail.push(e));
        assert forall|k: int| 0 <= k < tail.len() implies (#[trigger] tail[k]).id != e.id by {
            assert(tail[k] == s[k + 1]);
        }
        lemma_lookup_supply_push_self(tail, e);
    }
}

fn find_supply_index(v: &Vec<SupplyEntry>, id: U256) -> (r: Option<usize>)
    ensures
        match r {
            Some(i) => i < v@.len() && v@[i as int].id == id && forall|k: int|
                0 <= k < i ==> (#[trigger] v@[k]).id != id,
            None => forall|k: int| 0 <= k < v@.len() ==> (#[trigger] v@[k]).id != id,
        },
{
    let n = v.len();
    let mut i: usize = 0;
    while i < n
        invariant
            n == v@.len(),
            i <= n,
            forall|k: int| 0 <= k < i ==> (#[trigger] v@[k]).id != id,
        decreases n - i,
    {
        let e = v[i];
        if e.id == id {
            return Some(i);
        }
        i = i + 1;
    }
    None
}

/// The supply recorded for an id, zero when absent.
pub fn get_supply(v: &Vec<SupplyEntry>, id: U256) -> (r: U256)
    ensures
        r == lookup_supply(v@, id),
{
    match find_supply_index(v, id) {
        Some(i) => {
            proof {
                lemma_lookup_supply_skip(v@, id, i as int);
            }
            let e = v[i];
            e.amount
        },
        None => {
            proof {
                lemma_lookup_supply_skip(v@, id, v@.len() as int);
            }
            U256::zero()
        },
    }
}

/// Record `val` as the supply of `id`; every other supply is untouched.
pub fn set_supply(v: &mut Vec<SupplyEntry>, id: U256, val: U256)
    requires
        supply_keys_unique(old(v)@),
    ensures
        supply_keys_unique(final(v)@),
        lookup_supply(final(v)@, id) == val,
        forall|j: U256| j != id ==> lookup_supply(final(v)@, j) == lookup_supply(old(v)@, j),
{
    let ghost s0 = v@;
    let e = SupplyEntry { id, amount: val };
    match find_supply_index(v, id) {
        Some(i) => {
            v[i] = e;
            proof {
                lemma_lookup_supply_skip(v@, id, i as int);
                assert(v@.subrange(i as int, v@.len() as int)[0] == e);
                assert forall|j: U256| j != id implies lookup_supply(v@, j) == lookup_supply(
                    s0,
                    j,
                ) by {
                    lemma_lookup_supply_update_other(s0, i as int, e, j);
                }
            }
        },
        None => {
            v.push(e);
            proof {
                lemma_lookup_supply_push_self(s0, e);
                assert forall|j: U256| j != id implies lookup_supply(v@, j) == lookup_supply(
                    s0,
                    j,
                ) by {
                    lemma_lookup_supply_push_other(s0, e, j);
                }
            }
        },
    }
}

// ---------------------------------------------------------------------------
// Approvals
// ---------------------------------------------------------------------------

/// The consent recorded for (owner, operator): first match, default false.
pub open spec fn lookup_approval(s: Seq<ApprovalEntry>, owner: Account, operator: Account) -> bool
    decreases s.len(),
{
    if s.len() == 0 {
        false
    } else if s[0].owner == owner && s[0].operator == operator {
        s[0].approved
    } else {
        lookup_approval(s.subrange(1, s.len() as int), owner, operator)
    }
}

pub open spec fn approval_keys_unique(s: Seq<ApprovalEntry>) -> bool {
    forall|p: int, q: int|
        0 <= p < q < s.len() ==> !(#[trigger] s[p].owner == #[trigger] s[q].owner
            && s[p].operator == s[q].operator)
}

pub proof fn lemma_lookup_approval_skip(s: Seq<ApprovalEntry>, x: Account, y: Account, i: int)
    requires
        0 <= i <= s.len(),
        forall|k: int| 0 <= k < i ==> !((#[trigger] s[k]).owner == x && s[k].operator == y),
    ensures
        lookup_approval(s, x, y) == lookup_approval(s.subrange(i, s.len() as int), x, y),
    decreases i,
{
    if i == 0 {
        assert(s.subrange(0, s.len() as int) =~= s);
    } else {
        lemma_lookup_approval_skip(s, x, y, i - 1);
        let sub = s.subrange(i - 1, s.len() as int);
        assert(sub[0] == s[i - 1]);
        assert(sub.subrange(1, sub.len() as int) =~= s.subrange(i, s.len() as int));
    }
}

pub proof fn lemma_lookup_approval_update_other(
    s: Seq<ApprovalEntry>,
    i: int,
    e: ApprovalEntry,
    x: Account,
    y: Account,
)
    requires
        0 <= i < s.len(),
        !(s[i].owner == x && s[i].operator == y),
        !(e.owner == x && e.operator == y),
    ensures
        lookup_approval(s.update(i, e), x, y) == lookup_approval(s, x, y),
    decreases s.len(),
{
    let t = s.update(i, e);
    if i == 0 {
        assert(t.subrange(1, t.len() as int) =~= s.subrange(1, s.len() as int));
    } else {
        assert(t[0] == s[0]);
        if !(s[0].owner == x && s[0].operator == y) {
            assert(t.subrange(1, t.len() as int) =~= s.subrange(1, s.len() as int).update(
                i - 1,
                e,
            ));
            lemma_lookup_approval_update_other(s.subrange(1, s.len() as int), i - 1, e, x, y);
        }
    }
}

pub proof fn lemma_lookup_approval_push_other(
    s: Seq<ApprovalEntry>,
    e: ApprovalEntry,
    x: Account,
    y: Account,
)
    requires
        !(e.owner == x && e.operator == y),
    ensures
        lookup_approval(s.push(e), x, y) == lookup_approval(s, x, y),
    decreases s.len(),
{
    let t = s.push(e);
    if s.len() == 0 {
        assert(t[0] == e);
        assert(t.subrange(1, t.len() as int) =~= Seq::<ApprovalEntry>::empty());
        assert(lookup_approval(Seq::<ApprovalEntry>::empty(), x, y) == false);
    } else {
        assert(t[0] == s[0]);
        if !(s[0].owner == x && s[0].operator == y) {
            assert(t.subrange(1, t.len() as int) =~= s.subrange(1, s.len() as int).push(e));
            lemma_lookup_approval_push_other(s.subrange(1, s.len() as int), e, x, y);
        }
    }
}

pub proof fn lemma_lookup_approval_push_self(s: Seq<ApprovalEntry>, e: ApprovalEntry)
    requires
        forall|k: int|
            0 <= k < s.len() ==> !((#[trigger] s[k]).owner == e.owner && s[k].operator
                == e.operator),
    ensures
        lookup_approval(s.push(e), e.owner, e.operator) == e.approved,
    decreases s.len(),
{
    let t = s.push(e);
    if s.len() == 0 {
        assert(t[0] == e);
    } else {
        assert(t[0] == s[0]);
        let tail = s.subrange(1, s.len() as int);
        assert(t.subrange(1, t.len() as int) =~= tail.push(e));
        assert forall|k: int|
            0 <= k < tail.len() implies !((#[trigger] tail[k]).owner == e.owner
            && tail[k].operator == e.operator) by {
            assert(tail[k] == s[k + 1]);
        }
        lemma_lookup_approval_push_self(tail, e);
    }
}

fn find_approval_index(v: &Vec<ApprovalEntry>, owner: Account, operator: Account) -> (r: Option<
    usize,
>)
    ensures
        match r {
            Some(i) => i < v@.len() && v@[i as int].owner == owner && v@[i as int].operator
                == operator && forall|k: int|
                0 <= k < i ==> !((#[trigger] v@[k]).owner == owner && v@[k].operator == operator),
            None => forall|k: int|
                0 <= k < v@.len() ==> !((#[trigger] v@[k]).owner == owner && v@[k].operator
                    == operator),
        },
{
    let n = v.len();
    let mut i: usize = 0;
    while i < n
        invariant
            n == v@.len(),
            i <= n,
            forall|k: int|
                0 <= k < i ==> !((#[trigger] v@[k]).owner == owner && v@[k].operator == operator),
        decreases n - i,
    {
        let e = v[i];
        if e.owner == owner && e.operator == operator {
            return Some(i);
        }
        i = i + 1;
    }
    None
}

/// The consent recorded for (owner, operator), false when absent.
pub fn get_approval(v: &Vec<ApprovalEntry>, owner: Account, operator: Account) -> (r: bool)
    ensures
        r == lookup_approval(v@, owner, operator),
{
    match find_approval_index(v, owner, operator) {
        Some(i) => {
            proof {
                lemma_lookup_approval_skip(v@, owner, operator, i as int);
            }
            let e = v[i];
            e.approved
        },
        None => {
            proof {
                lemma_lookup_approval_skip(v@, owner, operator, v@.len() as int);
            }
            false
        },
    }
}

/// Record `val` as the consent of (owner, operator); every other pair is
/// untouched.
pub fn set_approval(v: &mut Vec<ApprovalEntry>, owner: Account, operator: Account, val: bool)
    requires
        approval_keys_unique(old(v)@),
    ensures
        approval_keys_unique(final(v)@),
        lookup_approval(final(v)@, owner, operator) == val,
        forall|x: Account, y: Account|
            !(x == owner && y == operator) ==> lookup_approval(final(v)@, x, y) == lookup_approval(
                old(v)@,
                x,
                y,
            ),
{
    let ghost s0 = v@;
    let e = ApprovalEntry { owner, operator, approved: val };
    match find_approval_index(v, owner, operator) {
        Some(i) => {
            v[i] = e;
            proof {
                lemma_lookup_approval_skip(v@, owner, operator, i as int);
                assert(v@.subrange(i as int, v@.len() as int)[0] == e);
                assert forall|x: Account, y: Account| !(x == owner && y == operator)
                    implies lookup_approval(v@, x, y) == lookup_approval(s0, x, y) by {
                    lemma_lookup_approval_update_other(s0, i as int, e, x, y);
                }
            }
        },
        None => {
            v.push(e);
            proof {
                lemma_lookup_approval_push_self(s0, e);
                assert forall|x: Account, y: Account| !(x == owner && y == operator)
                    implies lookup_approval(v@, x, y) == lookup_approval(s0, x, y) by {
                    lemma_lookup_approval_push_other(s0, e, x, y);
                }
            }
        },
    }
}

// ---------------------------------------------------------------------------
// Existence flags
// ---------------------------------------------------------------------------

/// Whether a token id has ever been minted. The set only grows.
pub fn contains_id(v: &Vec<U256>, id: U256) -> (r: bool)
    ensures
        r == v@.contains(id),
{
    let n = v.len();
    let mut i: usize = 0;
    while i < n
        invariant
            n == v@.len(),
            i <= n,
            forall|k: int| 0 <= k < i ==> v@[k] != id,
        decreases n - i,
    {
        let e = v[i];
        if e == id {
            assert(v@.contains(id));
            return true;
        }
        i = i + 1;
    }
    false
}

/// Mark a token id as existing (idempotent).
pub fn insert_id(v: &mut Vec<U256>, id: U256)
    ensures
        final(v)@.contains(id),
        forall|j: U256| old(v)@.contains(j) ==> final(v)@.contains(j),
        forall|j: U256| final(v)@.contains(j) ==> old(v)@.contains(j) || j == id,
{
    if !contains_id(v, id) {
        let ghost s0 = v@;
        v.push(id);
        proof {
            assert(v@[s0.len() as int] == id);
            assert forall|j: U256| s0.contains(j) implies v@.contains(j) by {
                let k = choose|k: int| 0 <= k < s0.len() && s0[k] == j;
                assert(v@[k] == j);
            }
            assert forall|j: U256| v@.contains(j) implies s0.contains(j) || j == id by {
                let k = choose|k: int| 0 <= k < v@.len() && v@[k] == j;
                if k < s0.len() {
                    assert(s0[k] == j);
                }
            }
        }
    }
}

} // verus!

verus! {

// ---------------------------------------------------------------------------
// Scratch copies for all-or-nothing batch operations
// ---------------------------------------------------------------------------

/// An element-for-element copy, used to stage a batch of writes that must
/// not survive a mid-batch failure.
pub fn copy_balance_entries(v: &Vec<BalanceEntry>) -> (r: Vec<BalanceEntry>)
    ensures
        r@ == v@,
{
    let n = v.len();
    let mut r: Vec<BalanceEntry> = Vec::new();
    let mut i: usize = 0;
    while i < n
        invariant
            n == v@.len(),
            i <= n,
            r@ == v@.subrange(0, i as int),
        decreases n - i,
    {
        r.push(v[i]);
        proof {
            assert(r@ =~= v@.subrange(0, i + 1 as int));
        }
        i = i + 1;
    }
    proof {
        assert(r@ =~= v@);
    }
    r
}

/// An element-for-element copy of the supply store.
pub fn copy_supply_entries(v: &Vec<SupplyEntry>) -> (r: Vec<SupplyEntry>)
    ensures
        r@ == v@,
{
    let n = v.len();
    let mut r: Vec<SupplyEntry> = Vec::new();
    let mut i: usize = 0;
    while i < n
        invariant
            n == v@.len(),
            i <= n,
            r@ == v@.subrange(0, i as int),
        decreases n - i,
    {
        r.push(v[i]);
        proof {
            assert(r@ =~= v@.subrange(0, i + 1 as int));
        }
        i = i + 1;
    }
    proof {
        assert(r@ =~= v@);
    }
    r
}

} // verus!
