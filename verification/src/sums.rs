//! Sums over the amounts that a finite ledger map holds.

use vstd::prelude::*;

verus! {

/// The sum of all amounts in `m`. An absent key counts as zero.
pub open spec fn total<K>(m: Map<K, nat>) -> nat
    decreases m.dom().len(),
    when m.dom().finite()
{
    if m.dom().is_empty() {
        0
    } else {
        let k = m.dom().choose();
        m[k] + total(m.remove(k))
    }
}

/// The amount recorded under `k`, zero where there is no entry.
pub open spec fn amount_at<K>(m: Map<K, nat>, k: K) -> nat {
    if m.contains_key(k) {
        m[k]
    } else {
        0
    }
}

/// The amounts of a map of machine integers as naturals, under the same keys.
pub open spec fn naturals<K>(m: Map<K, u128>) -> Map<K, nat> {
    Map::new(|k: K| m.contains_key(k), |k: K| m[k] as nat)
}

/// Any entry can be split off the sum, whichever the definition picks first.
pub proof fn lemma_total_remove<K>(m: Map<K, nat>, k: K)
    requires
        m.dom().finite(),
        m.contains_key(k),
    ensures
        total(m) == m[k] + total(m.remove(k)),
    decreases m.dom().len(),
{
    let c = m.dom().choose();
    if c != k {
        lemma_total_remove(m.remove(c), k);
        lemma_total_remove(m.remove(k), c);
        assert(m.remove(c).remove(k) =~= m.remove(k).remove(c));
    }
}

/// Removing a key that has no entry changes nothing.
pub proof fn lemma_total_remove_absent<K>(m: Map<K, nat>, k: K)
    requires
        !m.contains_key(k),
    ensures
        m.remove(k) == m,
{
    assert(m.remove(k) =~= m);
}

/// Writing `v` under `k` changes the sum by the difference to what was
/// recorded there before.
pub proof fn lemma_total_insert<K>(m: Map<K, nat>, k: K, v: nat)
    requires
        m.dom().finite(),
    ensures
        total(m.insert(k, v)) + amount_at(m, k) == total(m) + v,
{
    let w = m.insert(k, v);
    lemma_total_remove(w, k);
    assert(w.remove(k) =~= m.remove(k));
    if m.contains_key(k) {
        lemma_total_remove(m, k);
    } else {
        lemma_total_remove_absent(m, k);
    }
}

/// Dropping the entry under `k` takes its amount off the sum.
pub proof fn lemma_total_drop<K>(m: Map<K, nat>, k: K)
    requires
        m.dom().finite(),
    ensures
        total(m.remove(k)) + amount_at(m, k) == total(m),
{
    if m.contains_key(k) {
        lemma_total_remove(m, k);
    } else {
        lemma_total_remove_absent(m, k);
    }
}

/// No single entry is more than the sum.
pub proof fn lemma_total_bounds_entry<K>(m: Map<K, nat>, k: K)
    requires
        m.dom().finite(),
    ensures
        amount_at(m, k) <= total(m),
{
    lemma_total_drop(m, k);
}

} // verus!
