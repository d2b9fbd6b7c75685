//! Maps kept as vectors of records with distinct keys.
use vstd::prelude::*;

verus! {

/// The map from key to record that a sequence of records stands for; a later
/// record of a key overrides an earlier one.
pub open spec fn keyed_map<T>(s: Seq<T>, key: spec_fn(T) -> Seq<char>) -> Map<Seq<char>, T>
    decreases s.len(),
{
    if s.len() == 0 {
        Map::empty()
    } else {
        keyed_map(s.drop_last(), key).insert(key(s.last()), s.last())
    }
}

/// No two records share a key.
pub open spec fn keys_unique<T>(s: Seq<T>, key: spec_fn(T) -> Seq<char>) -> bool {
    forall|a: int, b: int| 0 <= a < b < s.len() ==> key(s[a]) != key(s[b])
}

pub proof fn lemma_keyed_at<T>(s: Seq<T>, key: spec_fn(T) -> Seq<char>, i: int)
    requires
        0 <= i < s.len(),
        keys_unique(s, key),
    ensures
        keyed_map(s, key).contains_key(key(s[i])),
        keyed_map(s, key)[key(s[i])] == s[i],
    decreases s.len(),
{
    if i < s.len() - 1 {
        lemma_keyed_at(s.drop_last(), key, i);
    }
}

pub proof fn lemma_keyed_absent<T>(s: Seq<T>, key: spec_fn(T) -> Seq<char>, k: Seq<char>)
    requires
        forall|j: int| 0 <= j < s.len() ==> key(s[j]) != k,
    ensures
        !keyed_map(s, key).contains_key(k),
    decreases s.len(),
{
    if s.len() > 0 {
        lemma_keyed_absent(s.drop_last(), key, k);
    }
}

pub proof fn lemma_keyed_domain<T>(s: Seq<T>, key: spec_fn(T) -> Seq<char>, k: Seq<char>)
    requires
        keyed_map(s, key).contains_key(k),
    ensures
        exists|j: int| 0 <= j < s.len() && key(s[j]) == k,
    decreases s.len(),
{
    if s.len() > 0 && key(s.last()) != k {
        lemma_keyed_domain(s.drop_last(), key, k);
        let j = choose|j: int| 0 <= j < s.drop_last().len() && key(s.drop_last()[j]) == k;
        assert(key(s[j]) == k);
    }
}

/// Every record of the map is kept under its own key.
pub proof fn lemma_keyed_own_key<T>(s: Seq<T>, key: spec_fn(T) -> Seq<char>, k: Seq<char>)
    requires
        keyed_map(s, key).contains_key(k),
    ensures
        key(keyed_map(s, key)[k]) == k,
    decreases s.len(),
{
    if s.len() > 0 && key(s.last()) != k {
        lemma_keyed_own_key(s.drop_last(), key, k);
    }
}

pub proof fn lemma_keyed_set<T>(s: Seq<T>, key: spec_fn(T) -> Seq<char>, i: int, v: T)
    requires
        0 <= i < s.len(),
        key(v) == key(s[i]),
        keys_unique(s, key),
    ensures
        keyed_map(s.update(i, v), key) == keyed_map(s, key).insert(key(v), v),
        keys_unique(s.update(i, v), key),
    decreases s.len(),
{
    let q = s.update(i, v);
    if i == s.len() - 1 {
        assert(q.drop_last() =~= s.drop_last());
    } else {
        lemma_keyed_set(s.drop_last(), key, i, v);
        assert(q.drop_last() =~= s.drop_last().update(i, v));
    }
    assert(keyed_map(q, key) =~= keyed_map(s, key).insert(key(v), v));
}

pub proof fn lemma_keyed_push<T>(s: Seq<T>, key: spec_fn(T) -> Seq<char>, v: T)
    requires
        keys_unique(s, key),
        forall|j: int| 0 <= j < s.len() ==> key(s[j]) != key(v),
    ensures
        keyed_map(s.push(v), key) == keyed_map(s, key).insert(key(v), v),
        keys_unique(s.push(v), key),
{
    assert(s.push(v).drop_last() =~= s);
}

pub proof fn lemma_keyed_remove<T>(s: Seq<T>, key: spec_fn(T) -> Seq<char>, i: int)
    requires
        0 <= i < s.len(),
        keys_unique(s, key),
    ensures
        keyed_map(s.remove(i), key) == keyed_map(s, key).remove(key(s[i])),
        keys_unique(s.remove(i), key),
    decreases s.len(),
{
    let q = s.remove(i);
    if i == s.len() - 1 {
        assert(q =~= s.drop_last());
        lemma_keyed_absent(s.drop_last(), key, key(s[i]));
        assert(keyed_map(q, key) =~= keyed_map(s, key).remove(key(s[i])));
    } else {
        lemma_keyed_remove(s.drop_last(), key, i);
        assert(q.drop_last() =~= s.drop_last().remove(i));
        assert(q.last() == s.last());
        assert(keyed_map(q, key) =~= keyed_map(s, key).remove(key(s[i])));
    }
}

} // verus!
