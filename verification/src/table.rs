//! A finite table of records kept in a sequence whose records have pairwise
//! distinct keys; its meaning is the map from each key to its record.
use vstd::prelude::*;

verus! {

/// No two records of `s` share a key.
pub open spec fn keys_unique<T, K>(s: Seq<T>, key: spec_fn(T) -> K) -> bool {
    forall|i: int, j: int|
        0 <= i < s.len() && 0 <= j < s.len() && #[trigger] key(s[i]) == #[trigger] key(s[j])
            ==> i == j
}

/// Some record of `s` has key `k`.
pub open spec fn has_key<T, K>(s: Seq<T>, key: spec_fn(T) -> K, k: K) -> bool {
    exists|i: int| 0 <= i < s.len() && #[trigger] key(s[i]) == k
}

/// The position of a record of `s` with key `k` (meaningful when there is one).
pub open spec fn key_position<T, K>(s: Seq<T>, key: spec_fn(T) -> K, k: K) -> int {
    choose|i: int| 0 <= i < s.len() && #[trigger] key(s[i]) == k
}

/// The map from each key of `s` to its record.
pub open spec fn table_map<T, K>(s: Seq<T>, key: spec_fn(T) -> K) -> Map<K, T> {
    Map::new(|k: K| has_key(s, key, k), |k: K| s[key_position(s, key, k)])
}

pub proof fn lemma_table_index<T, K>(s: Seq<T>, key: spec_fn(T) -> K, i: int)
    requires
        keys_unique(s, key),
        0 <= i < s.len(),
    ensures
        table_map(s, key).contains_key(key(s[i])),
        table_map(s, key)[key(s[i])] == s[i],
        key_position(s, key, key(s[i])) == i,
{
    assert(has_key(s, key, key(s[i])));
    let j = key_position(s, key, key(s[i]));
    assert(key(s[j]) == key(s[i]));
}

pub proof fn lemma_table_absent<T, K>(s: Seq<T>, key: spec_fn(T) -> K, k: K)
    requires
        forall|i: int| 0 <= i < s.len() ==> #[trigger] key(s[i]) != k,
    ensures
        !table_map(s, key).contains_key(k),
{
}

pub proof fn lemma_table_push<T, K>(s: Seq<T>, key: spec_fn(T) -> K, x: T)
    requires
        keys_unique(s, key),
        !table_map(s, key).contains_key(key(x)),
    ensures
        keys_unique(s.push(x), key),
        table_map(s.push(x), key) == table_map(s, key).insert(key(x), x),
{
    let t = s.push(x);
    assert forall|i: int, j: int|
        0 <= i < t.len() && 0 <= j < t.len() && #[trigger] key(t[i]) == #[trigger] key(t[j]) implies i
        == j by {
        if i < s.len() && j == s.len() {
            assert(has_key(s, key, key(x)));
        } else if j < s.len() && i == s.len() {
            assert(has_key(s, key, key(x)));
        } else if i < s.len() && j < s.len() {
            assert(t[i] == s[i] && t[j] == s[j]);
        }
    }
    assert forall|k: K| #[trigger]
        table_map(t, key).contains_key(k) == table_map(s, key).insert(key(x), x).contains_key(
            k,
        ) by {
        if has_key(t, key, k) {
            let i = choose|i: int| 0 <= i < t.len() && #[trigger] key(t[i]) == k;
            if i < s.len() {
                assert(key(s[i]) == k);
            }
        }
        if has_key(s, key, k) {
            let i = choose|i: int| 0 <= i < s.len() && #[trigger] key(s[i]) == k;
            assert(key(t[i]) == k);
        }
        if k == key(x) {
            assert(key(t[s.len() as int]) == k);
        }
    }
    assert forall|k: K| #[trigger] table_map(t, key).contains_key(k) implies table_map(t, key)[k]
        == table_map(s, key).insert(key(x), x)[k] by {
        let i = key_position(t, key, k);
        if k == key(x) {
            assert(key(t[s.len() as int]) == k);
            assert(i == s.len());
        } else {
            assert(i < s.len());
            assert(t[i] == s[i]);
            lemma_table_index(s, key, i);
        }
    }
    assert(table_map(t, key) =~= table_map(s, key).insert(key(x), x));
}

pub proof fn lemma_table_update<T, K>(s: Seq<T>, key: spec_fn(T) -> K, i: int, x: T)
    requires
        keys_unique(s, key),
        0 <= i < s.len(),
        key(x) == key(s[i]),
    ensures
        keys_unique(s.update(i, x), key),
        table_map(s.update(i, x), key) == table_map(s, key).insert(key(x), x),
{
    let t = s.update(i, x);
    assert forall|a: int, b: int|
        0 <= a < t.len() && 0 <= b < t.len() && #[trigger] key(t[a]) == #[trigger] key(t[b]) implies a
        == b by {
        assert(key(t[a]) == key(s[a]));
        assert(key(t[b]) == key(s[b]));
    }
    assert forall|k: K| #[trigger]
        table_map(t, key).contains_key(k) == table_map(s, key).insert(key(x), x).contains_key(
            k,
        ) by {
        if has_key(t, key, k) {
            let j = choose|j: int| 0 <= j < t.len() && #[trigger] key(t[j]) == k;
            assert(key(s[j]) == k);
        }
        if has_key(s, key, k) {
            let j = choose|j: int| 0 <= j < s.len() && #[trigger] key(s[j]) == k;
            assert(key(t[j]) == k);
        }
        if k == key(x) {
            assert(key(t[i]) == k);
        }
    }
    assert forall|k: K| #[trigger] table_map(t, key).contains_key(k) implies table_map(t, key)[k]
        == table_map(s, key).insert(key(x), x)[k] by {
        let j = key_position(t, key, k);
        assert(key(t[j]) == key(s[j]));
        lemma_table_index(s, key, j);
        if j == i {
            assert(t[j] == x);
        } else {
            assert(t[j] == s[j]);
            assert(k != key(x));
        }
    }
    assert(table_map(t, key) =~= table_map(s, key).insert(key(x), x));
}

pub proof fn lemma_table_remove<T, K>(s: Seq<T>, key: spec_fn(T) -> K, i: int)
    requires
        keys_unique(s, key),
        0 <= i < s.len(),
    ensures
        keys_unique(s.remove(i), key),
        table_map(s.remove(i), key) == table_map(s, key).remove(key(s[i])),
{
    let t = s.remove(i);
    let ki = key(s[i]);
    assert forall|a: int, b: int|
        0 <= a < t.len() && 0 <= b < t.len() && #[trigger] key(t[a]) == #[trigger] key(t[b]) implies a
        == b by {
        let sa = if a < i { a } else { a + 1 };
        let sb = if b < i { b } else { b + 1 };
        assert(t[a] == s[sa]);
        assert(t[b] == s[sb]);
    }
    assert forall|k: K| #[trigger]
        table_map(t, key).contains_key(k) == table_map(s, key).remove(ki).contains_key(k) by {
        if has_key(t, key, k) {
            let j = choose|j: int| 0 <= j < t.len() && #[trigger] key(t[j]) == k;
            let sj = if j < i { j } else { j + 1 };
            assert(t[j] == s[sj]);
            assert(key(s[sj]) == k);
            assert(sj != i);
        }
        if has_key(s, key, k) && k != ki {
            let j = choose|j: int| 0 <= j < s.len() && #[trigger] key(s[j]) == k;
            assert(j != i);
            let tj = if j < i { j } else { j - 1 };
            assert(t[tj] == s[j]);
            assert(key(t[tj]) == k);
        }
    }
    assert forall|k: K| #[trigger] table_map(t, key).contains_key(k) implies table_map(t, key)[k]
        == table_map(s, key).remove(ki)[k] by {
        let j = key_position(t, key, k);
        let sj = if j < i { j } else { j + 1 };
        assert(t[j] == s[sj]);
        lemma_table_index(s, key, sj);
    }
    assert(table_map(t, key) =~= table_map(s, key).remove(ki));
}

/// Replacing one value of a map commutes with mapping its values.
pub proof fn lemma_values_insert<K, T, W>(m: Map<K, T>, k: K, x: T, f: spec_fn(T) -> W)
    ensures
        m.insert(k, x).map_values(f) == m.map_values(f).insert(k, f(x)),
{
    assert(m.insert(k, x).map_values(f) =~= m.map_values(f).insert(k, f(x)));
}

/// Removing a key of a map commutes with mapping its values.
pub proof fn lemma_values_remove<K, T, W>(m: Map<K, T>, k: K, f: spec_fn(T) -> W)
    ensures
        m.remove(k).map_values(f) == m.map_values(f).remove(k),
{
    assert(m.remove(k).map_values(f) =~= m.map_values(f).remove(k));
}

} // verus!
