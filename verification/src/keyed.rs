use vstd::prelude::*;

verus! {

/// Whether no two entries of a list share a key.
pub open spec fn unique_keys<K, V>(entries: Seq<V>, key: spec_fn(V) -> K) -> bool {
    forall|i: int, j: int|
        0 <= i < entries.len() && 0 <= j < entries.len() && i != j ==> key(#[trigger] entries[i])
            != key(#[trigger] entries[j])
}

/// The map from each key to the last entry of the list that has it.
pub open spec fn keyed_map<K, V>(entries: Seq<V>, key: spec_fn(V) -> K) -> Map<K, V>
    decreases entries.len(),
{
    if entries.len() == 0 {
        Map::empty()
    } else {
        keyed_map(entries.drop_last(), key).insert(key(entries.last()), entries.last())
    }
}

/// A key is in the map exactly when some entry has it.
pub proof fn lemma_keyed_map_contains<K, V>(entries: Seq<V>, key: spec_fn(V) -> K, k: K)
    ensures
        keyed_map(entries, key).contains_key(k) <==> exists|i: int|
            0 <= i < entries.len() && key(#[trigger] entries[i]) == k,
    decreases entries.len(),
{
    if entries.len() > 0 {
        let rest = entries.drop_last();
        lemma_keyed_map_contains(rest, key, k);
        if keyed_map(entries, key).contains_key(k) {
            if key(entries.last()) != k {
                let i = choose|i: int| 0 <= i < rest.len() && key(#[trigger] rest[i]) == k;
                assert(entries[i] == rest[i]);
            } else {
                assert(key(entries[entries.len() - 1]) == k);
            }
        }
        if exists|i: int| 0 <= i < entries.len() && key(#[trigger] entries[i]) == k {
            let i = choose|i: int| 0 <= i < entries.len() && key(#[trigger] entries[i]) == k;
            if i < rest.len() {
                assert(rest[i] == entries[i]);
            }
        }
    }
}

/// With unique keys, the map gives each entry under its own key.
pub proof fn lemma_keyed_map_index<K, V>(entries: Seq<V>, key: spec_fn(V) -> K, i: int)
    requires
        unique_keys(entries, key),
        0 <= i < entries.len(),
    ensures
        keyed_map(entries, key).contains_key(key(entries[i])),
        keyed_map(entries, key)[key(entries[i])] == entries[i],
    decreases entries.len(),
{
    let rest = entries.drop_last();
    if i < entries.len() - 1 {
        assert(rest[i] == entries[i]);
        assert(unique_keys(rest, key)) by {
            assert forall|a: int, b: int|
                0 <= a < rest.len() && 0 <= b < rest.len() && a != b implies key(#[trigger] rest[a])
                != key(#[trigger] rest[b]) by {
                assert(rest[a] == entries[a]);
                assert(rest[b] == entries[b]);
            }
        }
        lemma_keyed_map_index(rest, key, i);
        assert(key(entries[i]) != key(entries[entries.len() - 1]));
    }
}

/// Appending an entry whose key is new keeps the keys unique.
pub proof fn lemma_unique_keys_push<K, V>(entries: Seq<V>, key: spec_fn(V) -> K, value: V)
    requires
        unique_keys(entries, key),
        !keyed_map(entries, key).contains_key(key(value)),
    ensures
        unique_keys(entries.push(value), key),
        keyed_map(entries.push(value), key) == keyed_map(entries, key).insert(key(value), value),
{
    let pushed = entries.push(value);
    assert(pushed.drop_last() =~= entries);
    assert forall|i: int, j: int|
        0 <= i < pushed.len() && 0 <= j < pushed.len() && i != j implies key(#[trigger] pushed[i])
        != key(#[trigger] pushed[j]) by {
        if i < entries.len() && j < entries.len() {
            assert(pushed[i] == entries[i]);
            assert(pushed[j] == entries[j]);
        } else if i < entries.len() {
            assert(pushed[i] == entries[i]);
            lemma_keyed_map_contains(entries, key, key(value));
        } else if j < entries.len() {
            assert(pushed[j] == entries[j]);
            lemma_keyed_map_contains(entries, key, key(value));
        }
    }
}

/// Replacing an entry by one with the same key replaces the value under that key.
pub proof fn lemma_keyed_map_update<K, V>(entries: Seq<V>, key: spec_fn(V) -> K, i: int, value: V)
    requires
        unique_keys(entries, key),
        0 <= i < entries.len(),
        key(value) == key(entries[i]),
    ensures
        unique_keys(entries.update(i, value), key),
        keyed_map(entries.update(i, value), key) == keyed_map(entries, key).insert(key(value), value),
    decreases entries.len(),
{
    let updated = entries.update(i, value);
    assert forall|a: int, b: int|
        0 <= a < updated.len() && 0 <= b < updated.len() && a != b implies key(#[trigger] updated[a])
        != key(#[trigger] updated[b]) by {
        assert(key(updated[a]) == key(entries[a]));
        assert(key(updated[b]) == key(entries[b]));
    }
    let rest = entries.drop_last();
    assert(unique_keys(rest, key)) by {
        assert forall|a: int, b: int|
            0 <= a < rest.len() && 0 <= b < rest.len() && a != b implies key(#[trigger] rest[a])
            != key(#[trigger] rest[b]) by {
            assert(rest[a] == entries[a]);
            assert(rest[b] == entries[b]);
        }
    }
    if i == entries.len() - 1 {
        assert(updated.drop_last() =~= rest);
        assert(keyed_map(updated, key) =~= keyed_map(entries, key).insert(key(value), value));
    } else {
        lemma_keyed_map_update(rest, key, i, value);
        assert(updated.drop_last() =~= rest.update(i, value));
        assert(key(entries.last()) != key(entries[i]));
        assert(keyed_map(updated, key) =~= keyed_map(entries, key).insert(key(value), value));
    }
}

/// The entries of a map whose values satisfy a predicate.
pub open spec fn filter_values<K, V>(entries: Map<K, V>, keep: spec_fn(V) -> bool) -> Map<K, V> {
    Map::new(|k: K| entries.contains_key(k) && keep(entries[k]), |k: K| entries[k])
}

/// One step of copying the entries of a list that satisfy a predicate.
pub proof fn lemma_keyed_map_filter_step<K, V>(
    found: Seq<V>,
    prefix: Seq<V>,
    value: V,
    key: spec_fn(V) -> K,
    keep: spec_fn(V) -> bool,
)
    requires
        unique_keys(prefix.push(value), key),
        unique_keys(found, key),
        keyed_map(found, key) == filter_values(keyed_map(prefix, key), keep),
    ensures
        keep(value) ==> unique_keys(found.push(value), key) && keyed_map(found.push(value), key)
            == filter_values(keyed_map(prefix.push(value), key), keep),
        !keep(value) ==> keyed_map(found, key) == filter_values(keyed_map(prefix.push(value), key), keep),
{
    let pushed = prefix.push(value);
    assert(pushed.drop_last() =~= prefix);
    lemma_keyed_map_contains(prefix, key, key(value));
    assert forall|i: int| 0 <= i < prefix.len() implies key(#[trigger] prefix[i]) != key(value) by {
        assert(pushed[i] == prefix[i]);
        assert(pushed[prefix.len() as int] == value);
    }
    if keep(value) {
        lemma_keyed_map_contains(found, key, key(value));
        if keyed_map(found, key).contains_key(key(value)) {
            assert(filter_values(keyed_map(prefix, key), keep).contains_key(key(value)));
        }
        lemma_unique_keys_push(found, key, value);
        assert(keyed_map(found.push(value), key) =~= filter_values(keyed_map(pushed, key), keep));
    } else {
        assert(keyed_map(found, key) =~= filter_values(keyed_map(pushed, key), keep));
    }
}

/// A list whose map is the filtered map of the stored entries lists exactly those entries.
pub proof fn lemma_listed_from_filter<K, V>(
    found: Seq<V>,
    stored: Map<K, V>,
    key: spec_fn(V) -> K,
    keep: spec_fn(V) -> bool,
)
    requires
        unique_keys(found, key),
        keyed_map(found, key) == filter_values(stored, keep),
    ensures
        forall|m: int|
            0 <= m < found.len() ==> stored.contains_key(key(#[trigger] found[m])) && stored[key(found[m])]
                == found[m] && keep(found[m]),
        forall|k: K|
            stored.contains_key(k) && keep(stored[k]) ==> exists|m: int|
                0 <= m < found.len() && key(#[trigger] found[m]) == k,
{
    assert forall|m: int| 0 <= m < found.len() implies stored.contains_key(key(#[trigger] found[m]))
        && stored[key(found[m])] == found[m] && keep(found[m]) by {
        lemma_keyed_map_index(found, key, m);
    }
    assert forall|k: K| stored.contains_key(k) && keep(stored[k]) implies exists|m: int|
        0 <= m < found.len() && key(#[trigger] found[m]) == k by {
        lemma_keyed_map_contains(found, key, k);
    }
}

/// One step of copying a list without the entries under key `k`.
pub proof fn lemma_keyed_map_remove_step<K, V>(
    kept: Seq<V>,
    prefix: Seq<V>,
    value: V,
    key: spec_fn(V) -> K,
    k: K,
)
    requires
        keyed_map(kept, key) == keyed_map(prefix, key).remove(k),
    ensures
        key(value) == k ==> keyed_map(kept, key) == keyed_map(prefix.push(value), key).remove(k),
        key(value) != k ==> keyed_map(kept.push(value), key) == keyed_map(prefix.push(value), key).remove(k),
{
    assert(prefix.push(value).drop_last() =~= prefix);
    assert(kept.push(value).drop_last() =~= kept);
    if key(value) == k {
        assert(keyed_map(kept, key) =~= keyed_map(prefix.push(value), key).remove(k));
    } else {
        assert(keyed_map(kept.push(value), key) =~= keyed_map(prefix.push(value), key).remove(k));
    }
}

/// Whether `top` is the largest number of a key of the map: every key numbers at most
/// `top`, and some key numbers `top` unless it is 0.
pub open spec fn is_top_number<K, V>(stored: Map<K, V>, number: spec_fn(K) -> u64, top: int) -> bool {
    &&& forall|k: K| #[trigger] stored.contains_key(k) ==> number(k) <= top
    &&& (top == 0 || exists|k: K| #[trigger] stored.contains_key(k) && number(k) == top)
}

/// The largest key number of the entries is the largest key number of their map.
pub proof fn lemma_top_number<K, V>(entries: Seq<V>, key: spec_fn(V) -> K, number: spec_fn(K) -> u64, top: int)
    requires
        forall|i: int| 0 <= i < entries.len() ==> number(key(#[trigger] entries[i])) <= top,
        top == 0 || exists|i: int| 0 <= i < entries.len() && number(key(#[trigger] entries[i])) == top,
    ensures
        is_top_number(keyed_map(entries, key), number, top),
{
    assert forall|k: K| #[trigger] keyed_map(entries, key).contains_key(k) implies number(k) <= top by {
        lemma_keyed_map_contains(entries, key, k);
        let i = choose|i: int| 0 <= i < entries.len() && key(#[trigger] entries[i]) == k;
    }
    if top != 0 {
        let i = choose|i: int| 0 <= i < entries.len() && number(key(#[trigger] entries[i])) == top;
        lemma_keyed_map_contains(entries, key, key(entries[i]));
    }
}

} // verus!
