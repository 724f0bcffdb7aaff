//! Ghost helpers for the behavior cache.
//!
//! The engine stores behaviors in a vector of `(identity, behavior)` pairs
//! with pairwise-distinct identities; these spec functions read such a
//! sequence as the `Map` that the contracts in [`crate::model`] speak about.

use vstd::prelude::*;

verus! {

/// The identities in `s` are pairwise distinct.
pub(crate) open spec fn keys_unique<S, B>(s: Seq<(S, B)>) -> bool {
    forall|i: int, j: int| 0 <= i < j < s.len() ==> (#[trigger] s[i]).0 != (#[trigger] s[j]).0
}

/// Some pair in `s` carries the identity `k`.
pub(crate) open spec fn seq_has_key<S, B>(s: Seq<(S, B)>, k: S) -> bool {
    exists|i: int| 0 <= i < s.len() && (#[trigger] s[i]).0 == k
}

/// The position of the pair carrying `k`, when there is one.
pub(crate) open spec fn key_index<S, B>(s: Seq<(S, B)>, k: S) -> int {
    choose|i: int| 0 <= i < s.len() && (#[trigger] s[i]).0 == k
}

/// The sequence of pairs read as a map from identity to behavior.
pub(crate) open spec fn assoc_map<S, B>(s: Seq<(S, B)>) -> Map<S, B> {
    Map::new(|k: S| seq_has_key(s, k), |k: S| s[key_index(s, k)].1)
}

/// With distinct identities, the pair at `i` is the one `key_index` finds
/// for its identity.
pub(crate) proof fn lemma_key_index<S, B>(s: Seq<(S, B)>, i: int)
    requires
        keys_unique(s),
        0 <= i < s.len(),
    ensures
        seq_has_key(s, s[i].0),
        key_index(s, s[i].0) == i,
{
    assert(seq_has_key(s, s[i].0));
    let j = key_index(s, s[i].0);
    if i < j {
        assert(s[i].0 != s[j].0);
    } else if j < i {
        assert(s[j].0 != s[i].0);
    }
}

/// With distinct identities, the map reads the pair at `i` back.
pub(crate) proof fn lemma_assoc_at_index<S, B>(s: Seq<(S, B)>, i: int)
    requires
        keys_unique(s),
        0 <= i < s.len(),
    ensures
        assoc_map(s).contains_key(s[i].0),
        assoc_map(s)[s[i].0] == s[i].1,
{
    lemma_key_index(s, i);
}

/// Replacing the pair at `i` by one with the same identity updates the
/// map at that identity.
pub(crate) proof fn lemma_assoc_update<S, B>(s: Seq<(S, B)>, i: int, x: (S, B))
    requires
        keys_unique(s),
        0 <= i < s.len(),
        x.0 == s[i].0,
    ensures
        keys_unique(s.update(i, x)),
        assoc_map(s.update(i, x)) == assoc_map(s).insert(s[i].0, x.1),
{
    let k = s[i].0;
    let b2 = x.1;
    let s2 = s.update(i, x);
    assert(forall|j: int| 0 <= j < s2.len() ==> (#[trigger] s2[j]).0 == s[j].0);
    assert(keys_unique(s2));
    assert forall|k2: S| #[trigger] seq_has_key(s2, k2) == seq_has_key(s, k2) by {
        if seq_has_key(s2, k2) {
            let j = choose|j: int| 0 <= j < s2.len() && (#[trigger] s2[j]).0 == k2;
            assert(s[j].0 == k2);
        }
        if seq_has_key(s, k2) {
            let j = choose|j: int| 0 <= j < s.len() && (#[trigger] s[j]).0 == k2;
            assert(s2[j].0 == k2);
        }
    }
    lemma_key_index(s, i);
    lemma_key_index(s2, i);
    assert forall|k2: S| seq_has_key(s2, k2) implies #[trigger] assoc_map(s2)[k2] == assoc_map(
        s,
    ).insert(k, b2)[k2] by {
        let j2 = key_index(s2, k2);
        assert(0 <= j2 < s2.len() && s2[j2].0 == k2);
        if k2 == k {
            lemma_key_index(s2, j2);
        } else {
            assert(j2 != i);
            assert(s2[j2] == s[j2]);
            lemma_key_index(s, j2);
        }
    }
    assert(assoc_map(s2) =~= assoc_map(s).insert(k, b2));
}

/// Appending a pair with a fresh identity inserts it into the map.
pub(crate) proof fn lemma_assoc_push<S, B>(s: Seq<(S, B)>, x: (S, B))
    requires
        keys_unique(s),
        !seq_has_key(s, x.0),
    ensures
        keys_unique(s.push(x)),
        assoc_map(s.push(x)) == assoc_map(s).insert(x.0, x.1),
{
    let k = x.0;
    let b = x.1;
    let s2 = s.push(x);
    let n = s.len() as int;
    assert(forall|j: int| 0 <= j < n ==> (#[trigger] s2[j]).0 == s[j].0);
    assert(s2[n] == x && s2[n].0 == k);
    assert forall|i: int, j: int| 0 <= i < j < s2.len() implies (#[trigger] s2[i]).0 != (
    #[trigger] s2[j]).0 by {
        if j < n {
            assert(s[i].0 != s[j].0);
        } else {
            assert(s2[j].0 == k);
            if s[i].0 == k {
                assert(seq_has_key(s, k));
            }
        }
    }
    assert forall|k2: S| #[trigger] seq_has_key(s2, k2) == (seq_has_key(s, k2) || k2 == k) by {
        if seq_has_key(s2, k2) {
            let j = choose|j: int| 0 <= j < s2.len() && (#[trigger] s2[j]).0 == k2;
            if j < n {
                assert(s[j].0 == k2);
            }
        }
        if seq_has_key(s, k2) {
            let j = choose|j: int| 0 <= j < s.len() && (#[trigger] s[j]).0 == k2;
            assert(s2[j].0 == k2);
        }
        if k2 == k {
            assert(s2[n].0 == k2);
        }
    }
    lemma_key_index(s2, n);
    assert forall|k2: S| seq_has_key(s2, k2) implies #[trigger] assoc_map(s2)[k2] == assoc_map(
        s,
    ).insert(k, b)[k2] by {
        let j2 = key_index(s2, k2);
        assert(0 <= j2 < s2.len() && s2[j2].0 == k2);
        if k2 == k {
            lemma_key_index(s2, j2);
        } else {
            assert(j2 != n);
            assert(s2[j2] == s[j2]);
            lemma_key_index(s, j2);
        }
    }
    assert(assoc_map(s2) =~= assoc_map(s).insert(k, b));
}

/// Taking the pair at `i` out and putting `x` back in its place is the same
/// as overwriting the pair at `i`.
pub(crate) proof fn lemma_remove_insert_is_update<S, B>(s: Seq<(S, B)>, i: int, x: (S, B))
    requires
        0 <= i < s.len(),
    ensures
        s.remove(i).insert(i, x) == s.update(i, x),
{
    assert(s.remove(i).insert(i, x) =~= s.update(i, x));
}

} // verus!
