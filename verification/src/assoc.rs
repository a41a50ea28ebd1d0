//! Lists of keys with their values, read as maps.

use vstd::prelude::*;

verus! {

/// Whether some entry has the key.
pub open spec fn has_key<K, V>(entries: Seq<(K, V)>, key: K) -> bool {
    exists|i: int| 0 <= i < entries.len() && (#[trigger] entries[i]).0 == key
}

/// The place of an entry with the key, where there is one.
pub open spec fn place_of<K, V>(entries: Seq<(K, V)>, key: K) -> int {
    choose|i: int| 0 <= i < entries.len() && (#[trigger] entries[i]).0 == key
}

/// No key stands in two entries.
pub open spec fn keys_differ<K, V>(entries: Seq<(K, V)>) -> bool {
    forall|i: int, j: int|
        0 <= i < j < entries.len() ==> (#[trigger] entries[i]).0 != (#[trigger] entries[j]).0
}

/// The map from each key of the list to the value that stands with it.
pub open spec fn as_map<K, V>(entries: Seq<(K, V)>) -> Map<K, V> {
    Map::new(|key: K| has_key(entries, key), |key: K| entries[place_of(entries, key)].1)
}

/// Where the keys differ, the entry at `i` is the one the map shows for its
/// key.
pub proof fn lemma_entry_in_map<K, V>(entries: Seq<(K, V)>, i: int)
    requires
        keys_differ(entries),
        0 <= i < entries.len(),
    ensures
        as_map(entries).contains_key(entries[i].0),
        as_map(entries)[entries[i].0] == entries[i].1,
{
    let key = entries[i].0;
    let p = place_of(entries, key);
    assert(0 <= p < entries.len() && entries[p].0 == key);
    if p < i {
        assert(entries[p].0 != entries[i].0);
    } else if i < p {
        assert(entries[i].0 != entries[p].0);
    }
}

/// An entry added under a new key adds that key to the map.
pub proof fn lemma_push_is_insert<K, V>(entries: Seq<(K, V)>, key: K, value: V)
    requires
        keys_differ(entries),
        !has_key(entries, key),
    ensures
        keys_differ(entries.push((key, value))),
        as_map(entries.push((key, value))) == as_map(entries).insert(key, value),
{
    let longer = entries.push((key, value));
    assert forall|i: int, j: int| 0 <= i < j < longer.len() implies (#[trigger] longer[i]).0 != (
    #[trigger] longer[j]).0 by {
        if j < entries.len() {
            assert(entries[i].0 != entries[j].0);
        } else {
            assert(entries[i].0 != key);
        }
    }
    lemma_same_keys_insert(entries, longer, entries.len() as int, key, value);
}

/// An entry replaced by one with the same key changes the value under that
/// key.
pub proof fn lemma_update_is_insert<K, V>(entries: Seq<(K, V)>, i: int, value: V)
    requires
        keys_differ(entries),
        0 <= i < entries.len(),
    ensures
        keys_differ(entries.update(i, (entries[i].0, value))),
        as_map(entries.update(i, (entries[i].0, value))) == as_map(entries).insert(
            entries[i].0,
            value,
        ),
{
    let key = entries[i].0;
    let changed = entries.update(i, (key, value));
    assert forall|a: int, b: int| 0 <= a < b < changed.len() implies (#[trigger] changed[a]).0 != (
    #[trigger] changed[b]).0 by {
        assert(entries[a].0 != entries[b].0);
    }
    lemma_same_keys_insert(entries, changed, i, key, value);
}

/// A list that differs from another only in holding `(key, value)` at `i`
/// shows the other's map with `value` under `key`.
proof fn lemma_same_keys_insert<K, V>(
    entries: Seq<(K, V)>,
    other: Seq<(K, V)>,
    i: int,
    key: K,
    value: V,
)
    requires
        keys_differ(entries),
        keys_differ(other),
        0 <= i < other.len(),
        other[i] == (key, value),
        entries.len() == other.len() || (entries.len() == i && other.len() == i + 1),
        forall|k: int| 0 <= k < entries.len() && k != i ==> entries[k] == other[k],
        i < entries.len() ==> entries[i].0 == key,
    ensures
        as_map(other) == as_map(entries).insert(key, value),
{
    let m = as_map(entries).insert(key, value);
    lemma_entry_in_map(other, i);
    assert forall|k: K| as_map(other).contains_key(k) implies m.contains_key(k) by {
        let p = place_of(other, k);
        if k != key {
            assert(p != i);
            assert(entries[p].0 == k);
        }
    }
    assert forall|k: K| m.contains_key(k) implies as_map(other).contains_key(k) && as_map(other)[k]
        == m[k] by {
        if k != key {
            let p = place_of(entries, k);
            assert(p != i);
            assert(other[p] == entries[p]);
            lemma_entry_in_map(other, p);
            lemma_entry_in_map(entries, p);
        }
    }
    assert(as_map(other) =~= m);
}

/// A list whose keys differ shows a map with as many keys as it has
/// entries.
pub proof fn lemma_map_size<K, V>(entries: Seq<(K, V)>)
    requires
        keys_differ(entries),
    ensures
        as_map(entries).dom().finite(),
        as_map(entries).dom().len() == entries.len(),
    decreases entries.len(),
{
    if entries.len() == 0 {
        assert(as_map(entries).dom() =~= Set::<K>::empty());
    } else {
        let shorter = entries.drop_last();
        let last = entries.last();
        assert forall|i: int, j: int| 0 <= i < j < shorter.len() implies (#[trigger] shorter[i]).0
            != (#[trigger] shorter[j]).0 by {
            assert(entries[i].0 != entries[j].0);
        }
        assert(!has_key(shorter, last.0)) by {
            if has_key(shorter, last.0) {
                let i = choose|i: int| 0 <= i < shorter.len() && (#[trigger] shorter[i]).0 == last.0;
                assert(entries[i].0 != entries[entries.len() - 1].0);
            }
        }
        lemma_map_size(shorter);
        lemma_push_is_insert(shorter, last.0, last.1);
        assert(shorter.push((last.0, last.1)) =~= entries);
    }
}

} // verus!
