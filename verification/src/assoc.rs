//! Keyed sequences: sequences of `(key, value)` pairs with pairwise
//! distinct keys.
//!
//! The ledger stores each of its record families as a `Vec` of pairs in
//! insertion order. This module gives those sequences their mathematical
//! reading — membership and lookup by key — and the lemmas that relate
//! lookups to pushes, in-place updates and removals.

use vstd::prelude::*;

verus! {

/// Every key occurs at most once in `s`.
pub open spec fn keys_unique<K, V>(s: Seq<(K, V)>) -> bool {
    forall|i: int, j: int| 0 <= i < j < s.len() ==> (#[trigger] s[i]).0 != (#[trigger] s[j]).0
}

/// Some entry of `s` carries the key `k`.
pub open spec fn has_key<K, V>(s: Seq<(K, V)>, k: K) -> bool {
    exists|i: int| 0 <= i < s.len() && (#[trigger] s[i]).0 == k
}

/// The value of the first entry of `s` carrying the key `k`
/// (an arbitrary value when there is none).
pub open spec fn value_of<K, V>(s: Seq<(K, V)>, k: K) -> V
    decreases s.len(),
{
    if s.len() == 0 {
        arbitrary()
    } else if s[0].0 == k {
        s[0].1
    } else {
        value_of(s.drop_first(), k)
    }
}

/// On a sequence with unique keys, the lookup by the key of any entry
/// yields that entry's value.
pub proof fn lemma_value_at_index<K, V>(s: Seq<(K, V)>, k: K, i: int)
    requires
        keys_unique(s),
        0 <= i < s.len(),
        s[i].0 == k,
    ensures
        has_key(s, k),
        value_of(s, k) == s[i].1,
    decreases s.len(),
{
    assert(has_key(s, k)) by {
        assert(0 <= i < s.len() && s[i].0 == k);
    }
    if i == 0 {
    } else {
        assert(s[0].0 != k);
        let t = s.drop_first();
        assert(keys_unique(t)) by {
            assert(forall|p: int, q: int|
                0 <= p < q < t.len() ==> (#[trigger] t[p]).0 != (#[trigger] t[q]).0) by {
                assert(forall|p: int| 0 <= p < t.len() ==> #[trigger] t[p] == s[p + 1]);
            }
        }
        assert(t[i - 1] == s[i]);
        lemma_value_at_index(t, k, i - 1);
    }
}

/// Appending an entry under a fresh key: the lookup under the fresh key
/// yields the new value and every other key is untouched.
pub proof fn lemma_push<K, V>(s: Seq<(K, V)>, k: K, v: V)
    requires
        keys_unique(s),
        !has_key(s, k),
    ensures
        keys_unique(s.push((k, v))),
        has_key(s.push((k, v)), k),
        value_of(s.push((k, v)), k) == v,
        forall|g: K|
            g != k && has_key(s, g) ==> has_key(s.push((k, v)), g) && value_of(s.push((k, v)), g)
                == value_of(s, g),
        forall|g: K| g != k && has_key(s.push((k, v)), g) ==> has_key(s, g),
{
    let t = s.push((k, v));
    assert(t[s.len() as int] == (k, v));
    assert(forall|j: int| 0 <= j < s.len() ==> #[trigger] t[j] == s[j]);
    assert(keys_unique(t)) by {
        assert(forall|p: int, q: int|
            0 <= p < q < t.len() ==> (#[trigger] t[p]).0 != (#[trigger] t[q]).0) by {
            assert(forall|p: int| 0 <= p < s.len() ==> (#[trigger] s[p]).0 != k);
        }
    }
    lemma_value_at_index(t, k, s.len() as int);
    assert forall|g: K| g != k && has_key(s, g) implies has_key(t, g) && value_of(t, g)
        == value_of(s, g) by {
        let j = choose|j: int| 0 <= j < s.len() && (#[trigger] s[j]).0 == g;
        lemma_value_at_index(s, g, j);
        lemma_value_at_index(t, g, j);
    }
    assert forall|g: K| g != k && has_key(t, g) implies has_key(s, g) by {
        let j = choose|j: int| 0 <= j < t.len() && (#[trigger] t[j]).0 == g;
        assert(j != s.len() as int);
        assert(s[j].0 == g);
    }
}

/// Replacing the value of the entry at index `i`, keeping its key: the
/// lookup under that key yields the new value and every other key is
/// untouched.
pub proof fn lemma_update<K, V>(s: Seq<(K, V)>, i: int, v: V)
    requires
        keys_unique(s),
        0 <= i < s.len(),
    ensures
        keys_unique(s.update(i, (s[i].0, v))),
        has_key(s.update(i, (s[i].0, v)), s[i].0),
        value_of(s.update(i, (s[i].0, v)), s[i].0) == v,
        forall|g: K|
            g != s[i].0 && has_key(s, g) ==> has_key(s.update(i, (s[i].0, v)), g) && value_of(
                s.update(i, (s[i].0, v)),
                g,
            ) == value_of(s, g),
        forall|g: K| g != s[i].0 && has_key(s.update(i, (s[i].0, v)), g) ==> has_key(s, g),
{
    let k = s[i].0;
    let t = s.update(i, (k, v));
    assert(forall|j: int| 0 <= j < s.len() && j != i ==> #[trigger] t[j] == s[j]);
    assert(t[i] == (k, v));
    assert(keys_unique(t)) by {
        assert(forall|p: int, q: int|
            0 <= p < q < t.len() ==> (#[trigger] t[p]).0 != (#[trigger] t[q]).0) by {
            assert(forall|j: int| 0 <= j < t.len() ==> (#[trigger] t[j]).0 == s[j].0);
        }
    }
    lemma_value_at_index(t, k, i);
    assert forall|g: K| g != k && has_key(s, g) implies has_key(t, g) && value_of(t, g)
        == value_of(s, g) by {
        let j = choose|j: int| 0 <= j < s.len() && (#[trigger] s[j]).0 == g;
        assert(j != i);
        lemma_value_at_index(s, g, j);
        lemma_value_at_index(t, g, j);
    }
    assert forall|g: K| g != k && has_key(t, g) implies has_key(s, g) by {
        let j = choose|j: int| 0 <= j < t.len() && (#[trigger] t[j]).0 == g;
        assert(j != i);
        assert(s[j].0 == g);
    }
}

/// Removing the entry at index `i`: its key is gone and every other key
/// is untouched.
pub proof fn lemma_remove<K, V>(s: Seq<(K, V)>, i: int)
    requires
        keys_unique(s),
        0 <= i < s.len(),
    ensures
        keys_unique(s.remove(i)),
        !has_key(s.remove(i), s[i].0),
        forall|g: K|
            g != s[i].0 && has_key(s, g) ==> has_key(s.remove(i), g) && value_of(s.remove(i), g)
                == value_of(s, g),
        forall|g: K| g != s[i].0 && has_key(s.remove(i), g) ==> has_key(s, g),
{
    let k = s[i].0;
    let t = s.remove(i);
    assert(forall|j: int| 0 <= j < i ==> #[trigger] t[j] == s[j]);
    assert(forall|j: int| i <= j < t.len() ==> #[trigger] t[j] == s[j + 1]);
    assert(keys_unique(t));
    assert(!has_key(t, k)) by {
        assert(forall|j: int| 0 <= j < t.len() ==> (#[trigger] t[j]).0 != k);
    }
    assert forall|g: K| g != k && has_key(s, g) implies has_key(t, g) && value_of(t, g)
        == value_of(s, g) by {
        let j = choose|j: int| 0 <= j < s.len() && (#[trigger] s[j]).0 == g;
        assert(j != i);
        if j < i {
            assert(t[j] == s[j]);
            lemma_value_at_index(s, g, j);
            lemma_value_at_index(t, g, j);
        } else {
            assert(t[j - 1] == s[j]);
            lemma_value_at_index(s, g, j);
            lemma_value_at_index(t, g, j - 1);
        }
    }
    assert forall|g: K| g != k && has_key(t, g) implies has_key(s, g) by {
        let j = choose|j: int| 0 <= j < t.len() && (#[trigger] t[j]).0 == g;
        if j < i {
            assert(s[j].0 == g);
        } else {
            assert(s[j + 1].0 == g);
        }
    }
}

} // verus!
