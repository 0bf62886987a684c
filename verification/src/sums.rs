//! The sum of the amounts in a finite table, and how it follows a change of
//! one entry.

use vstd::prelude::*;

verus! {

/// The sum of all values of a finite map.
pub open spec fn sum_values<K>(m: Map<K, nat>) -> nat
    decreases m.dom().len(),
    when m.dom().finite()
    via sum_values_decreases::<K>
{
    if m.dom().len() == 0 {
        0
    } else {
        let k = m.dom().choose();
        m[k] + sum_values(m.remove(k))
    }
}

/// Taking the chosen key out of a finite, non-empty map leaves fewer keys.
#[via_fn]
proof fn sum_values_decreases<K>(m: Map<K, nat>) {
    if m.dom().len() != 0 {
        let k = m.dom().choose();
        assert(m.dom().contains(k)) by {
            if m.dom() =~= Set::<K>::empty() {
                assert(m.dom().len() == 0);
            }
        }
        assert(m.remove(k).dom() =~= m.dom().remove(k));
    }
}

/// The value filed under `k`, or zero where nothing is filed.
pub open spec fn value_or_zero<K>(m: Map<K, nat>, k: K) -> nat {
    if m.dom().contains(k) {
        m[k]
    } else {
        0
    }
}

/// An empty map sums to zero.
pub proof fn lemma_sum_empty<K>()
    ensures
        sum_values(Map::<K, nat>::empty()) == 0,
{
    assert(Map::<K, nat>::empty().dom() =~= Set::<K>::empty());
}

/// The sum is any one entry plus the sum of the others.
pub proof fn lemma_sum_remove<K>(m: Map<K, nat>, k: K)
    requires
        m.dom().finite(),
        m.dom().contains(k),
    ensures
        sum_values(m) == m[k] + sum_values(m.remove(k)),
    decreases m.dom().len(),
{
    assert(m.dom().len() != 0) by {
        if m.dom().len() == 0 {
            assert(m.dom() =~= Set::<K>::empty());
        }
    }
    let c = m.dom().choose();
    assert(m.dom().contains(c));
    if c != k {
        let without_c = m.remove(c);
        let without_k = m.remove(k);
        assert(without_c.dom() =~= m.dom().remove(c));
        assert(without_k.dom() =~= m.dom().remove(k));
        lemma_sum_remove(without_c, k);
        lemma_sum_remove(without_k, c);
        assert(without_c.remove(k) =~= without_k.remove(c));
    }
}

/// Filing `v` under `k` changes the sum by the difference to what was filed
/// there before.
pub proof fn lemma_sum_insert<K>(m: Map<K, nat>, k: K, v: nat)
    requires
        m.dom().finite(),
    ensures
        sum_values(m.insert(k, v)) + value_or_zero(m, k) == sum_values(m) + v,
{
    let after = m.insert(k, v);
    assert(after.dom() =~= m.dom().insert(k));
    lemma_sum_remove(after, k);
    if m.dom().contains(k) {
        lemma_sum_remove(m, k);
        assert(after.remove(k) =~= m.remove(k));
    } else {
        assert(after.remove(k) =~= m);
    }
}

/// No entry exceeds the sum.
pub proof fn lemma_entry_le_sum<K>(m: Map<K, nat>, k: K)
    requires
        m.dom().finite(),
    ensures
        value_or_zero(m, k) <= sum_values(m),
{
    if m.dom().contains(k) {
        lemma_sum_remove(m, k);
    }
}

/// Two distinct entries together do not exceed the sum.
pub proof fn lemma_two_entries_le_sum<K>(m: Map<K, nat>, j: K, k: K)
    requires
        m.dom().finite(),
        j != k,
    ensures
        value_or_zero(m, j) + value_or_zero(m, k) <= sum_values(m),
{
    if m.dom().contains(j) {
        lemma_sum_remove(m, j);
        assert(m.remove(j).dom() =~= m.dom().remove(j));
        lemma_entry_le_sum(m.remove(j), k);
    } else {
        lemma_entry_le_sum(m, k);
    }
}

} // verus!
