//! Tables of rows identified by a primary key, seen as maps from key to row.

use vstd::prelude::*;

verus! {

/// No two rows share a key.
pub open spec fn keys_unique<R, K>(rows: Seq<R>, key: spec_fn(R) -> K) -> bool {
    forall|i: int, j: int|
        0 <= i < rows.len() && 0 <= j < rows.len() && i != j ==> key(rows[i]) != key(rows[j])
}

/// Some row has the key.
pub open spec fn has_key<R, K>(rows: Seq<R>, key: spec_fn(R) -> K, k: K) -> bool {
    exists|i: int| 0 <= i < rows.len() && key(rows[i]) == k
}

/// The position of a row with the key.
pub open spec fn key_index<R, K>(rows: Seq<R>, key: spec_fn(R) -> K, k: K) -> int {
    choose|i: int| 0 <= i < rows.len() && key(rows[i]) == k
}

/// The table as a map from each key to its row.
pub open spec fn table<R, K>(rows: Seq<R>, key: spec_fn(R) -> K) -> Map<K, R> {
    Map::new(|k: K| has_key(rows, key, k), |k: K| rows[key_index(rows, key, k)])
}

/// The rows whose key satisfies `keep`.
pub open spec fn restrict<K, R>(m: Map<K, R>, keep: spec_fn(K) -> bool) -> Map<K, R> {
    Map::new(|k: K| m.dom().contains(k) && keep(k), |k: K| m[k])
}

pub proof fn lemma_table_index<R, K>(rows: Seq<R>, key: spec_fn(R) -> K, i: int)
    requires
        keys_unique(rows, key),
        0 <= i < rows.len(),
    ensures
        table(rows, key).dom().contains(key(rows[i])),
        table(rows, key)[key(rows[i])] == rows[i],
{
    let k = key(rows[i]);
    assert(has_key(rows, key, k));
    let j = key_index(rows, key, k);
    assert(key(rows[j]) == k);
}

pub proof fn lemma_table_empty<R, K>(rows: Seq<R>, key: spec_fn(R) -> K)
    requires
        rows.len() == 0,
    ensures
        keys_unique(rows, key),
        table(rows, key) == Map::<K, R>::empty(),
{
    assert(table(rows, key) =~= Map::<K, R>::empty());
}

pub proof fn lemma_table_update<R, K>(rows: Seq<R>, key: spec_fn(R) -> K, i: int, x: R)
    requires
        keys_unique(rows, key),
        0 <= i < rows.len(),
        key(x) == key(rows[i]),
    ensures
        keys_unique(rows.update(i, x), key),
        table(rows.update(i, x), key) == table(rows, key).insert(key(x), x),
{
    let new_rows = rows.update(i, x);
    assert forall|a: int, b: int|
        0 <= a < new_rows.len() && 0 <= b < new_rows.len() && a != b implies key(new_rows[a])
        != key(new_rows[b]) by {
        assert(key(new_rows[a]) == key(rows[a]));
        assert(key(new_rows[b]) == key(rows[b]));
    }
    let t = table(new_rows, key);
    let expected = table(rows, key).insert(key(x), x);
    assert forall|k: K| t.dom().contains(k) <==> expected.dom().contains(k) by {
        if has_key(new_rows, key, k) {
            let j = choose|j: int| 0 <= j < new_rows.len() && key(new_rows[j]) == k;
            assert(key(rows[j]) == k);
        }
        if has_key(rows, key, k) {
            let j = choose|j: int| 0 <= j < rows.len() && key(rows[j]) == k;
            assert(key(new_rows[j]) == k);
        }
        if k == key(x) {
            assert(key(new_rows[i]) == k);
        }
    }
    assert forall|k: K| t.dom().contains(k) implies t[k] == expected[k] by {
        let j = key_index(new_rows, key, k);
        assert(key(new_rows[j]) == k);
        if k == key(x) {
            assert(j == i);
        } else {
            assert(j != i);
            lemma_table_index(rows, key, j);
        }
    }
    assert(t =~= expected);
}

pub proof fn lemma_table_push<R, K>(rows: Seq<R>, key: spec_fn(R) -> K, x: R)
    requires
        keys_unique(rows, key),
        !has_key(rows, key, key(x)),
    ensures
        keys_unique(rows.push(x), key),
        table(rows.push(x), key) == table(rows, key).insert(key(x), x),
{
    let new_rows = rows.push(x);
    let n = rows.len() as int;
    assert forall|a: int, b: int|
        0 <= a < new_rows.len() && 0 <= b < new_rows.len() && a != b implies key(new_rows[a])
        != key(new_rows[b]) by {
        if a == n {
            assert(key(rows[b]) == key(new_rows[b]));
        } else if b == n {
            assert(key(rows[a]) == key(new_rows[a]));
        }
    }
    let t = table(new_rows, key);
    let expected = table(rows, key).insert(key(x), x);
    assert forall|k: K| t.dom().contains(k) <==> expected.dom().contains(k) by {
        if has_key(new_rows, key, k) {
            let j = choose|j: int| 0 <= j < new_rows.len() && key(new_rows[j]) == k;
            if j < n {
                assert(key(rows[j]) == k);
            }
        }
        if has_key(rows, key, k) {
            let j = choose|j: int| 0 <= j < rows.len() && key(rows[j]) == k;
            assert(key(new_rows[j]) == k);
        }
        if k == key(x) {
            assert(key(new_rows[n]) == k);
        }
    }
    assert forall|k: K| t.dom().contains(k) implies t[k] == expected[k] by {
        let j = key_index(new_rows, key, k);
        assert(key(new_rows[j]) == k);
        if j < n {
            lemma_table_index(rows, key, j);
        }
    }
    assert(t =~= expected);
}

pub proof fn lemma_table_remove<R, K>(rows: Seq<R>, key: spec_fn(R) -> K, i: int)
    requires
        keys_unique(rows, key),
        0 <= i < rows.len(),
    ensures
        keys_unique(rows.remove(i), key),
        table(rows.remove(i), key) == table(rows, key).remove(key(rows[i])),
{
    let new_rows = rows.remove(i);
    assert forall|a: int, b: int|
        0 <= a < new_rows.len() && 0 <= b < new_rows.len() && a != b implies key(new_rows[a])
        != key(new_rows[b]) by {
        let a2 = if a < i { a } else { a + 1 };
        let b2 = if b < i { b } else { b + 1 };
        assert(new_rows[a] == rows[a2]);
        assert(new_rows[b] == rows[b2]);
    }
    let t = table(new_rows, key);
    let expected = table(rows, key).remove(key(rows[i]));
    assert forall|k: K| t.dom().contains(k) <==> expected.dom().contains(k) by {
        if has_key(new_rows, key, k) {
            let j = choose|j: int| 0 <= j < new_rows.len() && key(new_rows[j]) == k;
            let j2 = if j < i { j } else { j + 1 };
            assert(new_rows[j] == rows[j2]);
            assert(key(rows[j2]) == k);
        }
        if has_key(rows, key, k) && k != key(rows[i]) {
            let j = choose|j: int| 0 <= j < rows.len() && key(rows[j]) == k;
            assert(j != i);
            let j1 = if j < i { j } else { j - 1 };
            assert(new_rows[j1] == rows[j]);
        }
    }
    assert forall|k: K| t.dom().contains(k) implies t[k] == expected[k] by {
        let j = key_index(new_rows, key, k);
        assert(key(new_rows[j]) == k);
        let j2 = if j < i { j } else { j + 1 };
        assert(new_rows[j] == rows[j2]);
        lemma_table_index(rows, key, j2);
    }
    assert(t =~= expected);
}

/// Keeping the rows whose key satisfies `keep` keeps exactly those entries of
/// the table.
pub proof fn lemma_table_filter<R, K>(
    rows: Seq<R>,
    key: spec_fn(R) -> K,
    p: spec_fn(R) -> bool,
    keep: spec_fn(K) -> bool,
)
    requires
        keys_unique(rows, key),
        forall|r: R| #[trigger] p(r) == keep(key(r)),
    ensures
        keys_unique(rows.filter(p), key),
        table(rows.filter(p), key) == restrict(table(rows, key), keep),
    decreases rows.len(),
{
    reveal(Seq::filter);
    if rows.len() == 0 {
        lemma_table_empty(rows.filter(p), key);
        assert(restrict(table(rows, key), keep) =~= Map::<K, R>::empty());
    } else {
        let init = rows.drop_last();
        let x = rows.last();
        let n = rows.len() - 1;
        assert(keys_unique(init, key)) by {
            assert forall|a: int, b: int|
                0 <= a < init.len() && 0 <= b < init.len() && a != b implies key(init[a]) != key(
                    init[b],
                ) by {
                assert(init[a] == rows[a]);
                assert(init[b] == rows[b]);
            }
        }
        lemma_table_filter(init, key, p, keep);
        assert(rows.filter(p) == if p(x) {
            init.filter(p).push(x)
        } else {
            init.filter(p)
        });
        assert(!has_key(init, key, key(x))) by {
            if has_key(init, key, key(x)) {
                let j = choose|j: int| 0 <= j < init.len() && key(init[j]) == key(x);
                assert(rows[j] == init[j]);
                assert(rows[n] == x);
            }
        }
        assert(rows == init.push(x));
        lemma_table_push(init, key, x);
        if p(x) {
            assert(!has_key(init.filter(p), key, key(x))) by {
                if has_key(init.filter(p), key, key(x)) {
                    let j = key_index(init.filter(p), key, key(x));
                    lemma_table_index(init.filter(p), key, j);
                    assert(restrict(table(init, key), keep).dom().contains(key(x)));
                    assert(has_key(init, key, key(x)));
                }
            }
            lemma_table_push(init.filter(p), key, x);
            assert(table(rows.filter(p), key) =~= restrict(table(rows, key), keep));
        } else {
            assert(table(rows.filter(p), key) =~= restrict(table(rows, key), keep));
        }
    }
}

/// Changing every row without changing its key changes every entry of the
/// table in the same way.
pub proof fn lemma_table_map<R, K>(rows: Seq<R>, key: spec_fn(R) -> K, f: spec_fn(R) -> R)
    requires
        keys_unique(rows, key),
        forall|r: R| #[trigger] key(f(r)) == key(r),
    ensures
        keys_unique(rows.map_values(f), key),
        table(rows.map_values(f), key) == table(rows, key).map_values(f),
{
    let new_rows = rows.map_values(f);
    assert forall|a: int, b: int|
        0 <= a < new_rows.len() && 0 <= b < new_rows.len() && a != b implies key(new_rows[a])
        != key(new_rows[b]) by {
        assert(key(f(rows[a])) == key(rows[a]));
        assert(key(f(rows[b])) == key(rows[b]));
    }
    let t = table(new_rows, key);
    let expected = table(rows, key).map_values(f);
    assert forall|k: K| t.dom().contains(k) <==> expected.dom().contains(k) by {
        if has_key(new_rows, key, k) {
            let j = choose|j: int| 0 <= j < new_rows.len() && key(new_rows[j]) == k;
            assert(key(f(rows[j])) == key(rows[j]));
        }
        if has_key(rows, key, k) {
            let j = choose|j: int| 0 <= j < rows.len() && key(rows[j]) == k;
            assert(key(f(rows[j])) == key(rows[j]));
            assert(key(new_rows[j]) == k);
        }
    }
    assert forall|k: K| t.dom().contains(k) implies t[k] == expected[k] by {
        let j = key_index(new_rows, key, k);
        assert(key(new_rows[j]) == k);
        assert(key(f(rows[j])) == key(rows[j]));
        lemma_table_index(rows, key, j);
    }
    assert(t =~= expected);
}

} // verus!
