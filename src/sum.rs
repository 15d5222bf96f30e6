use vstd::prelude::*;

use crate::account::{AccountId, Balance};

verus! {

/// The amount held by `a` in `m`; an account missing from `m` holds nothing.
pub open spec fn amount_in(m: Map<AccountId, Balance>, a: AccountId) -> Balance {
    if m.dom().contains(a) {
        m[a]
    } else {
        0
    }
}

/// The sum of the amounts that `m` gives to the accounts of `keys`.
pub open spec fn sum_over(keys: Set<AccountId>, m: Map<AccountId, Balance>) -> int
    decreases keys.len(),
    when keys.finite()
{
    if keys.len() == 0 {
        0
    } else {
        let k = keys.choose();
        amount_in(m, k) + sum_over(keys.remove(k), m)
    }
}

/// The sum of all amounts in `m`.
pub open spec fn total_of(m: Map<AccountId, Balance>) -> int {
    sum_over(m.dom(), m)
}

/// Any member of a finite set can be taken out of the sum first.
pub proof fn lemma_sum_remove(keys: Set<AccountId>, m: Map<AccountId, Balance>, k: AccountId)
    requires
        keys.finite(),
        keys.contains(k),
    ensures
        sum_over(keys, m) == amount_in(m, k) + sum_over(keys.remove(k), m),
    decreases keys.len(),
{
    let c = keys.choose();
    if c != k {
        let rest = keys.remove(c);
        lemma_sum_remove(rest, m, k);
        lemma_sum_remove(keys.remove(k), m, c);
        assert(rest.remove(k) =~= keys.remove(k).remove(c));
    }
}

/// A sum depends only on the amounts of the accounts summed over.
pub proof fn lemma_sum_frame(keys: Set<AccountId>, m1: Map<AccountId, Balance>, m2: Map<AccountId, Balance>)
    requires
        keys.finite(),
        forall|a: AccountId| keys.contains(a) ==> amount_in(m1, a) == amount_in(m2, a),
    ensures
        sum_over(keys, m1) == sum_over(keys, m2),
    decreases keys.len(),
{
    if keys.len() > 0 {
        let k = keys.choose();
        lemma_sum_frame(keys.remove(k), m1, m2);
    }
}

/// A sum of amounts is never negative.
pub proof fn lemma_sum_nonnegative(keys: Set<AccountId>, m: Map<AccountId, Balance>)
    requires
        keys.finite(),
    ensures
        sum_over(keys, m) >= 0,
    decreases keys.len(),
{
    if keys.len() > 0 {
        let k = keys.choose();
        lemma_sum_nonnegative(keys.remove(k), m);
    }
}

/// Setting one amount changes the total by the difference.
pub proof fn lemma_total_insert(m: Map<AccountId, Balance>, k: AccountId, v: Balance)
    requires
        m.dom().finite(),
    ensures
        total_of(m.insert(k, v)) == total_of(m) - amount_in(m, k) + v,
{
    let m2 = m.insert(k, v);
    lemma_sum_remove(m2.dom(), m2, k);
    assert(m2.dom().remove(k) =~= m.dom().remove(k));
    lemma_sum_frame(m.dom().remove(k), m2, m);
    if m.dom().contains(k) {
        lemma_sum_remove(m.dom(), m, k);
    } else {
        assert(m.dom().remove(k) =~= m.dom());
    }
}

/// No single amount exceeds the total.
pub proof fn lemma_amount_le_total(m: Map<AccountId, Balance>, k: AccountId)
    requires
        m.dom().finite(),
    ensures
        amount_in(m, k) <= total_of(m),
{
    if m.dom().contains(k) {
        lemma_sum_remove(m.dom(), m, k);
        lemma_sum_nonnegative(m.dom().remove(k), m);
    } else {
        lemma_sum_nonnegative(m.dom(), m);
    }
}

/// A map with one account holds exactly that account's amount in total.
pub proof fn lemma_total_single(k: AccountId, v: Balance)
    ensures
        total_of(Map::empty().insert(k, v)) == v,
{
    let m = Map::<AccountId, Balance>::empty();
    assert(m.dom() =~= Set::empty());
    lemma_total_insert(m, k, v);
}

/// Summing over a finite superset of the domain adds only zeros.
pub proof fn lemma_sum_superset(keys: Set<AccountId>, m: Map<AccountId, Balance>)
    requires
        keys.finite(),
        m.dom().subset_of(keys),
    ensures
        sum_over(keys, m) == total_of(m),
    decreases keys.len(),
{
    if keys =~= m.dom() {
    } else {
        let x = choose|x: AccountId| keys.contains(x) && !m.dom().contains(x);
        lemma_sum_remove(keys, m, x);
        lemma_sum_superset(keys.remove(x), m);
    }
}

/// Moving an amount between two distinct accounts keeps the total.
pub proof fn lemma_total_move(
    m1: Map<AccountId, Balance>,
    m2: Map<AccountId, Balance>,
    from: AccountId,
    to: AccountId,
)
    requires
        m1.dom().finite(),
        m2.dom().finite(),
        from != to,
        amount_in(m1, from) + amount_in(m1, to) == amount_in(m2, from) + amount_in(m2, to),
        forall|a: AccountId| a != from && a != to ==> amount_in(m1, a) == amount_in(m2, a),
    ensures
        total_of(m2) == total_of(m1),
{
    let keys = m1.dom().union(m2.dom()).insert(from).insert(to);
    lemma_sum_superset(keys, m1);
    lemma_sum_superset(keys, m2);
    let rest = keys.remove(from).remove(to);
    lemma_sum_remove(keys, m1, from);
    lemma_sum_remove(keys.remove(from), m1, to);
    lemma_sum_remove(keys, m2, from);
    lemma_sum_remove(keys.remove(from), m2, to);
    lemma_sum_frame(rest, m1, m2);
}

} // verus!
