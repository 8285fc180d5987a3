//! Association lists: sequences of key-value pairs read as finite maps.
//!
//! The registries of this crate store their entries in vectors. The
//! functions here say which map such a vector stands for, and the lemmas say
//! how pushing, overwriting and removing a pair changes that map.
use vstd::prelude::*;

verus! {

/// No two pairs of the list carry the same key.
pub open spec fn distinct_keys<K, V>(pairs: Seq<(K, V)>) -> bool {
    forall|i: int, j: int|
        0 <= i < pairs.len() && 0 <= j < pairs.len() && i != j ==> (#[trigger] pairs[i]).0 != (
        #[trigger] pairs[j]).0
}

/// Some pair of the list carries `key`.
pub open spec fn has_key<K, V>(pairs: Seq<(K, V)>, key: K) -> bool {
    exists|i: int| 0 <= i < pairs.len() && (#[trigger] pairs[i]).0 == key
}

/// The position of a pair that carries `key`, where there is one.
pub open spec fn slot_of<K, V>(pairs: Seq<(K, V)>, key: K) -> int {
    choose|i: int| 0 <= i < pairs.len() && (#[trigger] pairs[i]).0 == key
}

/// The keys of the list, in the order of its pairs.
pub open spec fn keys_of<K, V>(pairs: Seq<(K, V)>) -> Seq<K> {
    Seq::new(pairs.len(), |i: int| pairs[i].0)
}

/// The map that the list stands for.
pub open spec fn as_map<K, V>(pairs: Seq<(K, V)>) -> Map<K, V> {
    Map::new(|k: K| has_key(pairs, k), |k: K| pairs[slot_of(pairs, k)].1)
}

/// The pair at position `i` is what the map holds under that pair's key.
pub proof fn lemma_lookup<K, V>(pairs: Seq<(K, V)>, i: int)
    requires
        distinct_keys(pairs),
        0 <= i < pairs.len(),
    ensures
        as_map(pairs).contains_key(pairs[i].0),
        as_map(pairs)[pairs[i].0] == pairs[i].1,
        slot_of(pairs, pairs[i].0) == i,
{
    assert(has_key(pairs, pairs[i].0));
}

/// Pushing a pair with a fresh key inserts it into the map.
pub proof fn lemma_push<K, V>(pairs: Seq<(K, V)>, key: K, value: V)
    requires
        distinct_keys(pairs),
        !has_key(pairs, key),
    ensures
        distinct_keys(pairs.push((key, value))),
        as_map(pairs.push((key, value))) == as_map(pairs).insert(key, value),
{
    let after = pairs.push((key, value));
    assert(distinct_keys(after)) by {
        assert forall|i: int, j: int|
            0 <= i < after.len() && 0 <= j < after.len() && i != j implies (#[trigger] after[i]).0
            != (#[trigger] after[j]).0 by {
            if i < pairs.len() {
                assert(after[i] == pairs[i]);
            }
            if j < pairs.len() {
                assert(after[j] == pairs[j]);
            }
        }
    }
    assert forall|k: K| has_key(after, k) <==> (k == key || has_key(pairs, k)) by {
        if has_key(after, k) {
            let i = slot_of(after, k);
            if i < pairs.len() {
                assert(after[i] == pairs[i]);
            }
        }
        if k == key {
            assert(after[pairs.len() as int].0 == key);
        }
        if has_key(pairs, k) {
            let i = slot_of(pairs, k);
            assert(after[i] == pairs[i]);
        }
    }
    assert forall|k: K| has_key(after, k) implies #[trigger] as_map(after)[k] == as_map(
        pairs,
    ).insert(key, value)[k] by {
        let i = slot_of(after, k);
        if k == key {
            lemma_lookup(after, pairs.len() as int);
        } else {
            let j = slot_of(pairs, k);
            assert(after[j] == pairs[j]);
            lemma_lookup(after, j);
        }
    }
    assert(as_map(after) =~= as_map(pairs).insert(key, value));
}

/// Overwriting the value at position `i` overwrites it in the map.
pub proof fn lemma_update<K, V>(pairs: Seq<(K, V)>, i: int, value: V)
    requires
        distinct_keys(pairs),
        0 <= i < pairs.len(),
    ensures
        distinct_keys(pairs.update(i, (pairs[i].0, value))),
        as_map(pairs.update(i, (pairs[i].0, value))) == as_map(pairs).insert(pairs[i].0, value),
{
    let key = pairs[i].0;
    let after = pairs.update(i, (key, value));
    assert forall|a: int| 0 <= a < pairs.len() implies (#[trigger] after[a]).0 == pairs[a].0 by {}
    assert(distinct_keys(after));
    assert forall|k: K| has_key(after, k) <==> has_key(pairs, k) by {
        if has_key(after, k) {
            let a = slot_of(after, k);
            assert(pairs[a].0 == k);
        }
        if has_key(pairs, k) {
            let a = slot_of(pairs, k);
            assert(after[a].0 == k);
        }
    }
    assert(has_key(pairs, key));
    assert forall|k: K| has_key(after, k) implies #[trigger] as_map(after)[k] == as_map(
        pairs,
    ).insert(key, value)[k] by {
        let a = slot_of(pairs, k);
        assert(after[a].0 == k);
        lemma_lookup(after, a);
        lemma_lookup(pairs, a);
    }
    assert(as_map(after) =~= as_map(pairs).insert(key, value));
}

/// Taking out the pair at position `i` removes its key from the map.
pub proof fn lemma_remove<K, V>(pairs: Seq<(K, V)>, i: int)
    requires
        distinct_keys(pairs),
        0 <= i < pairs.len(),
    ensures
        distinct_keys(pairs.remove(i)),
        as_map(pairs.remove(i)) == as_map(pairs).remove(pairs[i].0),
{
    let key = pairs[i].0;
    let after = pairs.remove(i);
    assert forall|a: int| 0 <= a < after.len() implies #[trigger] after[a] == pairs[if a < i {
        a
    } else {
        a + 1
    }] by {}
    assert(distinct_keys(after)) by {
        assert forall|a: int, b: int|
            0 <= a < after.len() && 0 <= b < after.len() && a != b implies (#[trigger] after[a]).0
            != (#[trigger] after[b]).0 by {
            let a0 = if a < i { a } else { a + 1 };
            let b0 = if b < i { b } else { b + 1 };
            assert(after[a] == pairs[a0]);
            assert(after[b] == pairs[b0]);
        }
    }
    assert forall|k: K| has_key(after, k) <==> (k != key && has_key(pairs, k)) by {
        if has_key(after, k) {
            let a = slot_of(after, k);
            let a0 = if a < i { a } else { a + 1 };
            assert(after[a] == pairs[a0]);
            assert(pairs[a0].0 == k);
        }
        if k != key && has_key(pairs, k) {
            let a0 = slot_of(pairs, k);
            let a = if a0 < i { a0 } else { a0 - 1 };
            assert(after[a] == pairs[a0]);
        }
    }
    assert forall|k: K| has_key(after, k) implies #[trigger] as_map(after)[k] == as_map(
        pairs,
    ).remove(key)[k] by {
        let a = slot_of(after, k);
        let a0 = if a < i { a } else { a + 1 };
        assert(after[a] == pairs[a0]);
        lemma_lookup(after, a);
        lemma_lookup(pairs, a0);
    }
    assert(as_map(after) =~= as_map(pairs).remove(key));
}

/// The map of a list with distinct keys has exactly one key for each pair.
pub proof fn lemma_domain<K, V>(pairs: Seq<(K, V)>)
    requires
        distinct_keys(pairs),
    ensures
        keys_of(pairs).no_duplicates(),
        as_map(pairs).dom() == keys_of(pairs).to_set(),
        as_map(pairs).dom().finite(),
        as_map(pairs).dom().len() == pairs.len(),
{
    let keys = keys_of(pairs);
    assert(keys.no_duplicates());
    assert forall|k: K| has_key(pairs, k) <==> keys.contains(k) by {
        if has_key(pairs, k) {
            let i = slot_of(pairs, k);
            assert(keys[i] == k);
        }
        if keys.contains(k) {
            let i = choose|i: int| 0 <= i < keys.len() && keys[i] == k;
            assert(pairs[i].0 == k);
        }
    }
    assert(as_map(pairs).dom() =~= keys.to_set());
    keys.unique_seq_to_set();
    vstd::seq_lib::seq_to_set_is_finite(keys);
}

} // verus!
