//! A sequence of keyed entries read as a map.

use vstd::prelude::*;

verus! {

/// Whether no key occurs twice.
pub open spec fn distinct_keys<K, V>(entries: Seq<(K, V)>) -> bool {
    forall|i: int, j: int|
        0 <= i < j < entries.len() ==> (#[trigger] entries[i]).0 != (#[trigger] entries[j]).0
}

/// Whether some entry has the key `key`.
pub open spec fn has_key<K, V>(entries: Seq<(K, V)>, key: K) -> bool {
    exists|i: int| 0 <= i < entries.len() && (#[trigger] entries[i]).0 == key
}

/// Where an entry with the key `key` stands, if there is one.
pub open spec fn slot_of<K, V>(entries: Seq<(K, V)>, key: K) -> int {
    choose|i: int| 0 <= i < entries.len() && (#[trigger] entries[i]).0 == key
}

/// The map from each key to the value of its entry.
pub open spec fn to_map<K, V>(entries: Seq<(K, V)>) -> Map<K, V> {
    Map::new(|key: K| has_key(entries, key), |key: K| entries[slot_of(entries, key)].1)
}

/// With distinct keys, the entry at `i` is the one that its key leads to.
pub proof fn lemma_lookup<K, V>(entries: Seq<(K, V)>, i: int)
    requires
        distinct_keys(entries),
        0 <= i < entries.len(),
    ensures
        has_key(entries, entries[i].0),
        slot_of(entries, entries[i].0) == i,
        to_map(entries).dom().contains(entries[i].0),
        to_map(entries)[entries[i].0] == entries[i].1,
{
    let key = entries[i].0;
    let j = slot_of(entries, key);
    assert(entries[j].0 == key);
    if j < i {
        assert(entries[j].0 != entries[i].0);
    } else if i < j {
        assert(entries[i].0 != entries[j].0);
    }
}

/// Appending an entry under a new key inserts it into the map.
pub proof fn lemma_push<K, V>(entries: Seq<(K, V)>, key: K, value: V)
    requires
        distinct_keys(entries),
        !has_key(entries, key),
    ensures
        distinct_keys(entries.push((key, value))),
        to_map(entries.push((key, value))) == to_map(entries).insert(key, value),
{
    let after = entries.push((key, value));
    assert forall|i: int, j: int| 0 <= i < j < after.len() implies (#[trigger] after[i]).0 != (
    #[trigger] after[j]).0 by {
        assert(after[i] == entries[i]);
        if j < entries.len() {
            assert(after[j] == entries[j]);
        }
    }
    assert forall|k: K| has_key(after, k) <==> (k == key || has_key(entries, k)) by {
        if has_key(after, k) {
            let i = slot_of(after, k);
            if i < entries.len() {
                assert(entries[i].0 == k);
            }
        }
        if k == key {
            assert(after[entries.len() as int].0 == k);
        }
        if has_key(entries, k) {
            let i = slot_of(entries, k);
            assert(after[i].0 == k);
        }
    }
    assert forall|k: K| has_key(after, k) implies #[trigger] to_map(after)[k] == to_map(
        entries,
    ).insert(key, value)[k] by {
        let i = slot_of(after, k);
        lemma_lookup(after, i);
        if i < entries.len() {
            assert(after[i] == entries[i]);
            lemma_lookup(entries, i);
        }
    }
    assert(to_map(after) =~= to_map(entries).insert(key, value));
}

/// Taking an entry out removes its key from the map.
pub proof fn lemma_remove<K, V>(entries: Seq<(K, V)>, at: int)
    requires
        distinct_keys(entries),
        0 <= at < entries.len(),
    ensures
        distinct_keys(entries.remove(at)),
        to_map(entries.remove(at)) == to_map(entries).remove(entries[at].0),
{
    let after = entries.remove(at);
    let key = entries[at].0;
    assert forall|i: int, j: int| 0 <= i < j < after.len() implies (#[trigger] after[i]).0 != (
    #[trigger] after[j]).0 by {
        let a = if i < at { i } else { i + 1 };
        let b = if j < at { j } else { j + 1 };
        assert(after[i] == entries[a]);
        assert(after[j] == entries[b]);
    }
    assert forall|k: K| has_key(after, k) <==> (k != key && has_key(entries, k)) by {
        if has_key(after, k) {
            let i = slot_of(after, k);
            let a = if i < at { i } else { i + 1 };
            assert(after[i] == entries[a]);
            assert(entries[a].0 == k);
            lemma_lookup(entries, a);
            lemma_lookup(entries, at);
        }
        if k != key && has_key(entries, k) {
            let a = slot_of(entries, k);
            let i = if a < at { a } else { a - 1 };
            assert(after[i] == entries[a]);
        }
    }
    assert forall|k: K| has_key(after, k) implies #[trigger] to_map(after)[k] == to_map(
        entries,
    ).remove(key)[k] by {
        let i = slot_of(after, k);
        lemma_lookup(after, i);
        let a = if i < at { i } else { i + 1 };
        assert(after[i] == entries[a]);
        lemma_lookup(entries, a);
    }
    assert(to_map(after) =~= to_map(entries).remove(key));
}

/// Replacing the value of an entry replaces the value under its key.
pub proof fn lemma_update<K, V>(entries: Seq<(K, V)>, at: int, value: V)
    requires
        distinct_keys(entries),
        0 <= at < entries.len(),
    ensures
        distinct_keys(entries.update(at, (entries[at].0, value))),
        to_map(entries.update(at, (entries[at].0, value))) == to_map(entries).insert(
            entries[at].0,
            value,
        ),
{
    let key = entries[at].0;
    let after = entries.update(at, (key, value));
    assert forall|i: int, j: int| 0 <= i < j < after.len() implies (#[trigger] after[i]).0 != (
    #[trigger] after[j]).0 by {
        assert(after[i].0 == entries[i].0);
        assert(after[j].0 == entries[j].0);
    }
    assert forall|k: K| has_key(after, k) <==> has_key(entries, k) by {
        if has_key(after, k) {
            let i = slot_of(after, k);
            assert(entries[i].0 == k);
        }
        if has_key(entries, k) {
            let i = slot_of(entries, k);
            assert(after[i].0 == k);
        }
    }
    lemma_lookup(entries, at);
    assert forall|k: K| has_key(after, k) implies #[trigger] to_map(after)[k] == to_map(
        entries,
    ).insert(key, value)[k] by {
        let i = slot_of(after, k);
        lemma_lookup(after, i);
        if i != at {
            assert(after[i] == entries[i]);
            lemma_lookup(entries, i);
        }
    }
    assert(to_map(after) =~= to_map(entries).insert(key, value));
}

} // verus!
