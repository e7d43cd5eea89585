//! Lists of keys with values.

use vstd::prelude::*;

verus! {

/// The position of the first entry with a key.
pub open spec fn key_slot<K, V>(items: Seq<(K, V)>, key: K) -> Option<int>
    decreases items.len(),
{
    if items.len() == 0 {
        None
    } else if items[0].0 == key {
        Some(0)
    } else {
        match key_slot(items.drop_first(), key) {
            Some(i) => Some(i + 1),
            None => None,
        }
    }
}

/// The value of a key.
pub open spec fn lookup<K, V>(items: Seq<(K, V)>, key: K) -> Option<V> {
    match key_slot(items, key) {
        Some(i) => Some(items[i].1),
        None => None,
    }
}

/// The list with a value for a key, in place of the value that the key had.
pub open spec fn put<K, V>(items: Seq<(K, V)>, key: K, value: V) -> Seq<(K, V)> {
    match key_slot(items, key) {
        Some(i) => items.update(i, (key, value)),
        None => items.push((key, value)),
    }
}

/// The list without the entry for a key.
pub open spec fn without_key<K, V>(items: Seq<(K, V)>, key: K) -> Seq<(K, V)> {
    match key_slot(items, key) {
        Some(i) => items.remove(i),
        None => items,
    }
}

pub proof fn lemma_key_slot<K, V>(items: Seq<(K, V)>, key: K)
    ensures
        match key_slot(items, key) {
            Some(i) => 0 <= i < items.len() && items[i].0 == key && forall|j: int|
                0 <= j < i ==> (#[trigger] items[j]).0 != key,
            None => forall|j: int| 0 <= j < items.len() ==> (#[trigger] items[j]).0 != key,
        },
    decreases items.len(),
{
    if items.len() > 0 && items[0].0 != key {
        let rest = items.drop_first();
        lemma_key_slot(rest, key);
        assert forall|j: int| 0 < j < items.len() implies #[trigger] items[j] == rest[j - 1] by {}
    }
}

/// A position with the key, and no earlier one, is the slot.
pub proof fn lemma_key_slot_is<K, V>(items: Seq<(K, V)>, key: K, i: int)
    requires
        0 <= i < items.len(),
        items[i].0 == key,
        forall|j: int| 0 <= j < i ==> (#[trigger] items[j]).0 != key,
    ensures
        key_slot(items, key) == Some(i),
{
    lemma_key_slot(items, key);
}

pub proof fn lemma_no_key_slot<K, V>(items: Seq<(K, V)>, key: K)
    requires
        forall|j: int| 0 <= j < items.len() ==> (#[trigger] items[j]).0 != key,
    ensures
        key_slot(items, key) is None,
{
    lemma_key_slot(items, key);
}

/// A value is found under its key after it was put there, and what other keys
/// have stays as it was.
pub proof fn law_put_then_lookup<K, V>(items: Seq<(K, V)>, key: K, value: V, other: K)
    ensures
        lookup(put(items, key, value), key) == Some(value),
        other != key ==> lookup(put(items, key, value), other) == lookup(items, other),
{
    lemma_key_slot(items, key);
    let after = put(items, key, value);
    lemma_key_slot(after, key);
    lemma_key_slot(after, other);
    lemma_key_slot(items, other);
    match key_slot(items, key) {
        Some(i) => {
            assert(after[i].0 == key);
            if let Some(k) = key_slot(after, key) {
                if k < i {
                    assert(items[k].0 != key);
                } else if i < k {
                    assert(after[i].0 != key);
                }
            }
        },
        None => {
            assert(after[items.len() as int].0 == key);
            if let Some(k) = key_slot(after, key) {
                if k < items.len() {
                    assert(items[k].0 != key);
                }
            }
        },
    }
    if other != key {
        match key_slot(items, other) {
            Some(i) => {
                assert(after[i] == items[i]);
                if let Some(k) = key_slot(after, other) {
                    if k < i {
                        assert(items[k].0 != other);
                        assert(after[k].0 == other);
                    } else if i < k {
                        assert(after[i].0 != other);
                    }
                }
            },
            None => {
                if let Some(k) = key_slot(after, other) {
                    assert(after[k].0 == other);
                    if k < items.len() {
                        assert(items[k].0 != other);
                    }
                }
            },
        }
    }
}

/// No key occurs twice.
#[verifier::opaque]
pub open spec fn distinct_keys<K, V>(items: Seq<(K, V)>) -> bool {
    forall|i: int, j: int|
        0 <= i < j < items.len() ==> (#[trigger] items[i]).0 != (#[trigger] items[j]).0
}

/// A list without entries has distinct keys, and it keeps them when a value is put
/// under a key or a key is taken away.
pub proof fn law_keys_stay_distinct<K, V>(items: Seq<(K, V)>, key: K, value: V)
    requires
        distinct_keys(items),
    ensures
        distinct_keys(Seq::<(K, V)>::empty()),
        distinct_keys(put(items, key, value)),
        distinct_keys(without_key(items, key)),
{
    reveal(distinct_keys);
    lemma_key_slot(items, key);
    lemma_without_distinct(items, key);
}

proof fn lemma_without_distinct<K, V>(items: Seq<(K, V)>, key: K)
    requires
        distinct_keys(items),
    ensures
        distinct_keys(without_key(items, key)),
        forall|j: int|
            0 <= j < without_key(items, key).len() ==> (#[trigger] without_key(items, key)[j]).0
                != key,
{
    reveal(distinct_keys);
    lemma_key_slot(items, key);
    if let Some(slot) = key_slot(items, key) {
        let rest = items.remove(slot);
        assert forall|j: int| 0 <= j < rest.len() implies #[trigger] rest[j] == items[if j < slot {
            j
        } else {
            j + 1
        }] by {}
    }
}

/// What is taken away under a key is gone, and what other keys have stays as it
/// was.
pub proof fn law_what_is_taken_away_is_gone<K, V>(items: Seq<(K, V)>, key: K, other: K)
    requires
        distinct_keys(items),
    ensures
        lookup(without_key(items, key), key) is None,
        other != key ==> lookup(without_key(items, key), other) == lookup(items, other),
{
    let rest = without_key(items, key);
    lemma_without_distinct(items, key);
    lemma_no_key_slot(rest, key);
    if other != key {
        lemma_key_slot(items, key);
        lemma_key_slot(items, other);
        if let Some(slot) = key_slot(items, key) {
            match key_slot(items, other) {
                Some(i) => {
                    let k = if i < slot {
                        i
                    } else {
                        i - 1
                    };
                    assert(rest[k] == items[i]);
                    assert forall|j: int| 0 <= j < k implies (#[trigger] rest[j]).0 != other by {
                        assert(rest[j] == items[if j < slot {
                            j
                        } else {
                            j + 1
                        }]);
                    }
                    lemma_key_slot_is(rest, other, k);
                },
                None => {
                    assert forall|j: int| 0 <= j < rest.len() implies (#[trigger] rest[j]).0
                        != other by {
                        assert(rest[j] == items[if j < slot {
                            j
                        } else {
                            j + 1
                        }]);
                    }
                    lemma_no_key_slot(rest, other);
                },
            }
        }
    }
}

} // verus!
