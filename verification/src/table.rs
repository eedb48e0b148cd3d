//! Rows with a primary key, read as a map.
//!
//! Each table of the index is a list of rows in which no key occurs twice.
//! The order of the rows carries no meaning, so a table is read as the map
//! from its keys to the rest of each row. The lemmas say what that map is
//! after a row was added or taken away.

use vstd::prelude::*;

verus! {

/// No key occurs in two rows.
pub open spec fn keys_distinct<K, V>(rows: Seq<(K, V)>) -> bool {
    forall|i: int, j: int| 0 <= i < j < rows.len() ==> rows[i].0 != rows[j].0
}

/// Some row has the key `k`.
pub open spec fn has_key<K, V>(rows: Seq<(K, V)>, k: K) -> bool {
    exists|i: int| 0 <= i < rows.len() && (#[trigger] rows[i]).0 == k
}

/// The place of a row with the key `k`.
pub open spec fn row_of<K, V>(rows: Seq<(K, V)>, k: K) -> int {
    choose|i: int| 0 <= i < rows.len() && (#[trigger] rows[i]).0 == k
}

/// The table as a map from key to value.
pub open spec fn as_map<K, V>(rows: Seq<(K, V)>) -> Map<K, V> {
    Map::new(|k: K| has_key(rows, k), |k: K| rows[row_of(rows, k)].1)
}

/// A row of the table is an entry of its map.
pub proof fn lemma_row<K, V>(rows: Seq<(K, V)>, i: int)
    requires
        keys_distinct(rows),
        0 <= i < rows.len(),
    ensures
        as_map(rows).dom().contains(rows[i].0),
        as_map(rows)[rows[i].0] == rows[i].1,
{
    let k = rows[i].0;
    assert(has_key(rows, k));
    let j = row_of(rows, k);
    if j < i {
        assert(rows[j].0 != rows[i].0);
    } else if i < j {
        assert(rows[i].0 != rows[j].0);
    }
}

/// A key that no row has is not in the map.
pub proof fn lemma_absent<K, V>(rows: Seq<(K, V)>, k: K)
    requires
        forall|i: int| 0 <= i < rows.len() ==> (#[trigger] rows[i]).0 != k,
    ensures
        !as_map(rows).dom().contains(k),
{
}

/// Adding a row with a new key adds one entry.
pub proof fn lemma_push<K, V>(rows: Seq<(K, V)>, k: K, v: V)
    requires
        keys_distinct(rows),
        !has_key(rows, k),
    ensures
        keys_distinct(rows.push((k, v))),
        as_map(rows.push((k, v))) == as_map(rows).insert(k, v),
{
    let more = rows.push((k, v));
    assert forall|i: int, j: int| 0 <= i < j < more.len() implies more[i].0 != more[j].0 by {
        if j == rows.len() {
            assert(rows[i].0 != k);
        }
    }
    assert forall|x: K| as_map(more).dom().contains(x) <==> as_map(rows).insert(
        k,
        v,
    ).dom().contains(x) by {
        if has_key(more, x) {
            let i = row_of(more, x);
            if i < rows.len() {
                assert(rows[i].0 == x);
            }
        }
        if has_key(rows, x) {
            let i = row_of(rows, x);
            assert(more[i].0 == x);
        }
        if x == k {
            assert(more[rows.len() as int].0 == x);
        }
    }
    assert forall|x: K| as_map(more).dom().contains(x) implies #[trigger] as_map(more)[x]
        == as_map(rows).insert(k, v)[x] by {
        let i = row_of(more, x);
        lemma_row(more, i);
        if i < rows.len() {
            assert(rows[i] == more[i]);
            lemma_row(rows, i);
        }
    }
    assert(as_map(more) =~= as_map(rows).insert(k, v));
}

/// Taking a row away takes its entry away.
pub proof fn lemma_remove<K, V>(rows: Seq<(K, V)>, i: int)
    requires
        keys_distinct(rows),
        0 <= i < rows.len(),
    ensures
        keys_distinct(rows.remove(i)),
        as_map(rows.remove(i)) == as_map(rows).remove(rows[i].0),
{
    let less = rows.remove(i);
    let k = rows[i].0;
    assert forall|a: int, b: int| 0 <= a < b < less.len() implies less[a].0 != less[b].0 by {
        let a0 = if a < i {
            a
        } else {
            a + 1
        };
        let b0 = if b < i {
            b
        } else {
            b + 1
        };
        assert(less[a] == rows[a0]);
        assert(less[b] == rows[b0]);
    }
    assert forall|x: K| as_map(less).dom().contains(x) <==> as_map(rows).remove(k).dom().contains(
        x,
    ) by {
        if has_key(less, x) {
            let a = row_of(less, x);
            let a0 = if a < i {
                a
            } else {
                a + 1
            };
            assert(rows[a0].0 == x);
            if a0 < i {
                assert(rows[a0].0 != rows[i].0);
            } else {
                assert(rows[i].0 != rows[a0].0);
            }
        }
        if has_key(rows, x) && x != k {
            let a0 = row_of(rows, x);
            let a = if a0 < i {
                a0
            } else {
                a0 - 1
            };
            assert(less[a].0 == x);
        }
    }
    assert forall|x: K| as_map(less).dom().contains(x) implies #[trigger] as_map(less)[x]
        == as_map(rows).remove(k)[x] by {
        let a = row_of(less, x);
        let a0 = if a < i {
            a
        } else {
            a + 1
        };
        lemma_row(less, a);
        assert(less[a] == rows[a0]);
        lemma_row(rows, a0);
    }
    assert(as_map(less) =~= as_map(rows).remove(k));
}

} // verus!
