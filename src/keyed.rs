//! A sequence of records read as a map from each record's string key to the
//! record; where two records share a key, the later one is the one seen.
use vstd::prelude::*;

verus! {

/// The map that a sequence of records forms under `key`.
pub open spec fn keyed_map<T>(s: Seq<T>, key: spec_fn(T) -> Seq<char>) -> Map<Seq<char>, T>
    decreases s.len(),
{
    if s.len() == 0 {
        Map::empty()
    } else {
        keyed_map(s.drop_last(), key).insert(key(s.last()), s.last())
    }
}

/// `i` holds the last record whose key is `k`.
pub open spec fn is_last_with_key<T>(s: Seq<T>, key: spec_fn(T) -> Seq<char>, k: Seq<char>, i: int) -> bool {
    &&& 0 <= i < s.len()
    &&& key(s[i]) == k
    &&& forall|j: int| i < j < s.len() ==> key(#[trigger] s[j]) != k
}

pub proof fn lemma_keyed_push<T>(s: Seq<T>, key: spec_fn(T) -> Seq<char>, x: T)
    ensures
        keyed_map(s.push(x), key) == keyed_map(s, key).insert(key(x), x),
{
    assert(s.push(x).drop_last() =~= s);
}

pub proof fn lemma_keyed_absent<T>(s: Seq<T>, key: spec_fn(T) -> Seq<char>, k: Seq<char>)
    requires
        forall|j: int| 0 <= j < s.len() ==> key(#[trigger] s[j]) != k,
    ensures
        !keyed_map(s, key).contains_key(k),
    decreases s.len(),
{
    if s.len() > 0 {
        lemma_keyed_absent(s.drop_last(), key, k);
        assert(key(s[s.len() - 1]) != k);
    }
}

pub proof fn lemma_keyed_last<T>(s: Seq<T>, key: spec_fn(T) -> Seq<char>, k: Seq<char>, i: int)
    requires
        is_last_with_key(s, key, k, i),
    ensures
        keyed_map(s, key).contains_key(k),
        keyed_map(s, key)[k] == s[i],
    decreases s.len(),
{
    if i < s.len() - 1 {
        assert(key(s[s.len() - 1]) != k);
        assert(is_last_with_key(s.drop_last(), key, k, i)) by {
            assert forall|j: int| i < j < s.drop_last().len() implies key(#[trigger] s.drop_last()[j]) != k by {
                assert(s.drop_last()[j] == s[j]);
            }
        }
        lemma_keyed_last(s.drop_last(), key, k, i);
    }
}

pub proof fn lemma_keyed_update_last<T>(s: Seq<T>, key: spec_fn(T) -> Seq<char>, k: Seq<char>, i: int, x: T)
    requires
        is_last_with_key(s, key, k, i),
        key(x) == k,
    ensures
        keyed_map(s.update(i, x), key) == keyed_map(s, key).insert(k, x),
    decreases s.len(),
{
    let t = s.update(i, x);
    if i == s.len() - 1 {
        assert(t.drop_last() =~= s.drop_last());
        assert(keyed_map(t, key) =~= keyed_map(s, key).insert(k, x));
    } else {
        assert(key(s[s.len() - 1]) != k);
        assert(t.drop_last() =~= s.drop_last().update(i, x));
        assert(is_last_with_key(s.drop_last(), key, k, i)) by {
            assert forall|j: int| i < j < s.drop_last().len() implies key(#[trigger] s.drop_last()[j]) != k by {
                assert(s.drop_last()[j] == s[j]);
            }
        }
        lemma_keyed_update_last(s.drop_last(), key, k, i, x);
        assert(keyed_map(t, key) =~= keyed_map(s, key).insert(k, x));
    }
}

/// Replacing the last record of a key with another record of that key
/// replaces the key's entry in the map.
pub broadcast proof fn lemma_keyed_replace<T>(s: Seq<T>, key: spec_fn(T) -> Seq<char>, i: int, x: T)
    requires
        is_last_with_key(s, key, key(x), i),
    ensures
        #[trigger] keyed_map(s.update(i, x), key) == keyed_map(s, key).insert(key(x), x),
{
    lemma_keyed_update_last(s, key, key(x), i, x);
}

} // verus!
