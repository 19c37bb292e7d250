//! Sums over the entries of a finite map.

use vstd::prelude::*;

verus! {

/// The amount stored under `key`, zero where nothing is stored.
pub open spec fn amount_at<K>(m: Map<K, u64>, key: K) -> u64 {
    if m.contains_key(key) {
        m[key]
    } else {
        0
    }
}

/// The sum of `weight(k, v)` over all entries `(k, v)` of `m`.
pub open spec fn weighted<K, V>(m: Map<K, V>, weight: spec_fn(K, V) -> nat) -> nat
    decreases m.dom().len(),
    when m.dom().finite()
{
    if m.dom().is_empty() {
        0
    } else {
        let k = m.dom().choose();
        weight(k, m[k]) + weighted(m.remove(k), weight)
    }
}

/// What the entry under `key` adds to the sum; zero where there is none.
pub open spec fn weight_at<K, V>(m: Map<K, V>, weight: spec_fn(K, V) -> nat, key: K) -> nat {
    if m.contains_key(key) {
        weight(key, m[key])
    } else {
        0
    }
}

/// The sum of all amounts in `m`.
pub open spec fn total<K>(m: Map<K, u64>) -> nat {
    weighted(m, |k: K, amount: u64| amount as nat)
}

/// Any one entry can be split off the sum.
pub proof fn lemma_weighted_remove<K, V>(m: Map<K, V>, weight: spec_fn(K, V) -> nat, key: K)
    requires
        m.dom().finite(),
        m.contains_key(key),
    ensures
        weighted(m, weight) == weight(key, m[key]) + weighted(m.remove(key), weight),
    decreases m.dom().len(),
{
    let c = m.dom().choose();
    if c != key {
        lemma_weighted_remove(m.remove(c), weight, key);
        lemma_weighted_remove(m.remove(key), weight, c);
        assert(m.remove(c).remove(key) =~= m.remove(key).remove(c));
    }
}

/// Storing an entry changes the sum by the difference between what the new
/// entry adds and what the old one added.
pub proof fn lemma_weighted_insert<K, V>(
    m: Map<K, V>,
    weight: spec_fn(K, V) -> nat,
    key: K,
    value: V,
)
    requires
        m.dom().finite(),
    ensures
        weighted(m.insert(key, value), weight) == weighted(m, weight) - weight_at(m, weight, key)
            + weight(key, value),
{
    let after = m.insert(key, value);
    lemma_weighted_remove(after, weight, key);
    if m.contains_key(key) {
        lemma_weighted_remove(m, weight, key);
        assert(after.remove(key) =~= m.remove(key));
    } else {
        assert(after.remove(key) =~= m);
    }
}

/// No single entry adds more than the sum.
pub proof fn lemma_weighted_bounds<K, V>(m: Map<K, V>, weight: spec_fn(K, V) -> nat, key: K)
    requires
        m.dom().finite(),
    ensures
        weight_at(m, weight, key) <= weighted(m, weight),
{
    if m.contains_key(key) {
        lemma_weighted_remove(m, weight, key);
    }
}

/// A sum is bounded by the sum of two others where each of its entries is
/// bounded by the two others' entries together.
pub proof fn lemma_weighted_split<K, V>(
    m: Map<K, V>,
    whole: spec_fn(K, V) -> nat,
    left: spec_fn(K, V) -> nat,
    right: spec_fn(K, V) -> nat,
)
    requires
        m.dom().finite(),
        forall|k: K| #[trigger]
            m.contains_key(k) ==> whole(k, m[k]) <= left(k, m[k]) + right(k, m[k]),
    ensures
        weighted(m, whole) <= weighted(m, left) + weighted(m, right),
    decreases m.dom().len(),
{
    if !m.dom().is_empty() {
        let k = m.dom().choose();
        assert(m.contains_key(k));
        assert forall|j: K| #[trigger] m.remove(k).contains_key(j) implies whole(j, m.remove(k)[j])
            <= left(j, m.remove(k)[j]) + right(j, m.remove(k)[j]) by {
            assert(m.contains_key(j));
        }
        lemma_weighted_split(m.remove(k), whole, left, right);
    }
}

/// A sum to which no entry adds anything is zero.
pub proof fn lemma_weighted_nothing<K, V>(m: Map<K, V>, weight: spec_fn(K, V) -> nat)
    requires
        m.dom().finite(),
        forall|k: K| #[trigger] m.contains_key(k) ==> weight(k, m[k]) == 0,
    ensures
        weighted(m, weight) == 0,
    decreases m.dom().len(),
{
    if !m.dom().is_empty() {
        let k = m.dom().choose();
        assert(m.contains_key(k));
        assert forall|j: K| #[trigger] m.remove(k).contains_key(j) implies weight(
            j,
            m.remove(k)[j],
        ) == 0 by {
            assert(m.contains_key(j));
        }
        lemma_weighted_nothing(m.remove(k), weight);
    }
}

/// An empty map sums to zero.
pub proof fn lemma_total_empty<K>()
    ensures
        total(Map::<K, u64>::empty()) == 0,
{
}

/// Storing an amount changes the total by the difference to what was stored.
pub proof fn lemma_total_insert<K>(m: Map<K, u64>, key: K, amount: u64)
    requires
        m.dom().finite(),
    ensures
        total(m.insert(key, amount)) == total(m) - amount_at(m, key) + amount,
{
    lemma_weighted_insert(m, |k: K, amount: u64| amount as nat, key, amount);
}

/// No single amount exceeds the total.
pub proof fn lemma_total_bounds<K>(m: Map<K, u64>, key: K)
    requires
        m.dom().finite(),
    ensures
        amount_at(m, key) <= total(m),
{
    lemma_weighted_bounds(m, |k: K, amount: u64| amount as nat, key);
}

} // verus!
