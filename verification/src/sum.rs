//! The sum of the amounts that a finite map holds.

use vstd::prelude::*;

verus! {

/// The sum of all values of `m`, for a map with finitely many keys.
pub open spec fn total<K>(m: Map<K, i128>) -> int
    decreases m.dom().len(),
    when m.dom().finite()
    via total_decreases::<K>
{
    if m.dom().is_empty() {
        0
    } else {
        let k = m.dom().choose();
        m[k] + total(m.remove(k))
    }
}

#[via_fn]
proof fn total_decreases<K>(m: Map<K, i128>) {
    if !m.dom().is_empty() {
        let k = m.dom().choose();
        assert(m.dom().contains(k));
        assert(m.remove(k).dom() =~= m.dom().remove(k));
    }
}

/// The amount that `m` holds for `k`: what is stored there, and zero where
/// nothing is.
pub open spec fn amount_of<K>(m: Map<K, i128>, k: K) -> int {
    if m.contains_key(k) {
        m[k] as int
    } else {
        0
    }
}

/// Whether no value of `m` is negative.
pub open spec fn non_negative<K>(m: Map<K, i128>) -> bool {
    forall|k: K| m.contains_key(k) ==> #[trigger] m[k] >= 0
}

/// The empty map sums to zero.
pub proof fn lemma_total_empty<K>()
    ensures
        total(Map::<K, i128>::empty()) == 0,
{
    assert(Map::<K, i128>::empty().dom() =~= Set::<K>::empty());
}

/// Any one key can be taken out of the sum first.
pub proof fn lemma_total_remove<K>(m: Map<K, i128>, k: K)
    requires
        m.dom().finite(),
        m.contains_key(k),
    ensures
        total(m) == m[k] + total(m.remove(k)),
    decreases m.dom().len(),
{
    let c = m.dom().choose();
    assert(m.dom().contains(c));
    if c != k {
        let rest = m.remove(c);
        assert(rest.dom() =~= m.dom().remove(c));
        lemma_total_remove(rest, k);
        let other = m.remove(k);
        assert(other.dom() =~= m.dom().remove(k));
        lemma_total_remove(other, c);
        assert(rest.remove(k) =~= other.remove(c));
    }
}

/// Storing `v` under `k` changes the sum by the difference to what `k` held.
pub proof fn lemma_total_insert<K>(m: Map<K, i128>, k: K, v: i128)
    requires
        m.dom().finite(),
    ensures
        m.insert(k, v).dom().finite(),
        total(m.insert(k, v)) == total(m) - amount_of(m, k) + v,
{
    let after = m.insert(k, v);
    assert(after.dom() =~= m.dom().insert(k));
    lemma_total_remove(after, k);
    if m.contains_key(k) {
        lemma_total_remove(m, k);
        assert(after.remove(k) =~= m.remove(k));
    } else {
        assert(after.remove(k) =~= m);
    }
}

/// Where no value is negative, the sum is not negative either.
pub proof fn lemma_total_non_negative<K>(m: Map<K, i128>)
    requires
        m.dom().finite(),
        non_negative(m),
    ensures
        total(m) >= 0,
    decreases m.dom().len(),
{
    if !m.dom().is_empty() {
        let c = m.dom().choose();
        assert(m.dom().contains(c));
        let rest = m.remove(c);
        assert(rest.dom() =~= m.dom().remove(c));
        assert(m.contains_key(c));
        assert forall|k: K| rest.contains_key(k) implies #[trigger] rest[k] >= 0 by {
            assert(m.contains_key(k));
        }
        lemma_total_non_negative(rest);
    }
}

/// Where no value is negative, no single amount exceeds the sum.
pub proof fn lemma_amount_within_total<K>(m: Map<K, i128>, k: K)
    requires
        m.dom().finite(),
        non_negative(m),
    ensures
        0 <= amount_of(m, k) <= total(m),
{
    lemma_total_non_negative(m);
    if m.contains_key(k) {
        lemma_total_remove(m, k);
        let rest = m.remove(k);
        assert(rest.dom() =~= m.dom().remove(k));
        assert forall|j: K| rest.contains_key(j) implies #[trigger] rest[j] >= 0 by {
            assert(m.contains_key(j));
        }
        lemma_total_non_negative(rest);
    }
}

/// Where no value is negative, two different keys together hold no more than
/// the sum.
pub proof fn lemma_pair_within_total<K>(m: Map<K, i128>, a: K, b: K)
    requires
        m.dom().finite(),
        non_negative(m),
        a != b,
    ensures
        amount_of(m, a) + amount_of(m, b) <= total(m),
{
    if m.contains_key(a) {
        lemma_total_remove(m, a);
        let rest = m.remove(a);
        assert(rest.dom() =~= m.dom().remove(a));
        assert forall|j: K| rest.contains_key(j) implies #[trigger] rest[j] >= 0 by {
            assert(m.contains_key(j));
        }
        lemma_amount_within_total(rest, b);
    } else {
        lemma_amount_within_total(m, b);
    }
}

} // verus!
