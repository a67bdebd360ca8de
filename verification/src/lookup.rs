//! Finding the first occurrence of a key in a sequence.

use vstd::prelude::*;

verus! {

/// `i` is the first position of `keys` that holds `key`.
pub open spec fn is_first_index<K>(keys: Seq<K>, key: K, i: int) -> bool {
    &&& 0 <= i < keys.len()
    &&& keys[i] == key
    &&& forall|j: int| 0 <= j < i ==> keys[j] != key
}

/// The first position of `keys` that holds `key`, if any does.
pub open spec fn first_index<K>(keys: Seq<K>, key: K) -> Option<int> {
    if exists|i: int| is_first_index(keys, key, i) {
        Some(choose|i: int| is_first_index(keys, key, i))
    } else {
        None
    }
}

/// A first position is the only first position.
pub proof fn lemma_first_index_found<K>(keys: Seq<K>, key: K, i: int)
    requires
        is_first_index(keys, key, i),
    ensures
        first_index(keys, key) == Some(i),
{
    let j = choose|j: int| is_first_index(keys, key, j);
    assert(is_first_index(keys, key, j));
    if j < i {
        assert(keys[j] != key);
    } else if i < j {
        assert(keys[i] != key);
    }
}

/// A key that occurs nowhere has no first position.
pub proof fn lemma_first_index_absent<K>(keys: Seq<K>, key: K)
    requires
        forall|j: int| 0 <= j < keys.len() ==> keys[j] != key,
    ensures
        first_index(keys, key) is None,
{
}

/// What `first_index` returns, spelled out.
pub proof fn lemma_first_index<K>(keys: Seq<K>, key: K)
    ensures
        match first_index(keys, key) {
            Some(i) => is_first_index(keys, key, i),
            None => forall|j: int| 0 <= j < keys.len() ==> keys[j] != key,
        },
{
    if first_index(keys, key) is None {
        assert forall|j: int| 0 <= j < keys.len() implies keys[j] != key by {
            if keys[j] == key {
                lemma_some_first(keys, key, j);
            }
        }
    }
}

/// Where a key occurs at all, it has a first position.
proof fn lemma_some_first<K>(keys: Seq<K>, key: K, j: int)
    requires
        0 <= j < keys.len(),
        keys[j] == key,
    ensures
        exists|i: int| is_first_index(keys, key, i),
    decreases j,
{
    if exists|k: int| 0 <= k < j && keys[k] == key {
        let k = choose|k: int| 0 <= k < j && keys[k] == key;
        lemma_some_first(keys, key, k);
    } else {
        assert(is_first_index(keys, key, j));
    }
}

} // verus!
