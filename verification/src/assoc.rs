//! Sequences of keys and values read as finite maps.

use vstd::prelude::*;

verus! {

/// The map that sends each key in `keys` to the value at the same place in
/// `vals`.
pub open spec fn assoc<K, V>(keys: Seq<K>, vals: Seq<V>) -> Map<K, V> {
    Map::new(|k: K| keys.contains(k), |k: K| vals[keys.index_of(k)])
}

/// Where keys are distinct, the map holds each key with its own value.
pub proof fn lemma_assoc_at<K, V>(keys: Seq<K>, vals: Seq<V>, i: int)
    requires
        keys.no_duplicates(),
        0 <= i < keys.len(),
    ensures
        assoc(keys, vals).dom().contains(keys[i]),
        assoc(keys, vals)[keys[i]] == vals[i],
{
    assert(keys.contains(keys[i]));
    let j = keys.index_of(keys[i]);
    assert(0 <= j < keys.len() && keys[j] == keys[i]);
}

/// Putting a value in the place of another changes the map at that key
/// alone.
pub proof fn lemma_assoc_update<K, V>(keys: Seq<K>, vals: Seq<V>, i: int, v: V)
    requires
        keys.no_duplicates(),
        keys.len() == vals.len(),
        0 <= i < keys.len(),
    ensures
        assoc(keys, vals.update(i, v)) == assoc(keys, vals).insert(keys[i], v),
{
    let after = assoc(keys, vals.update(i, v));
    let want = assoc(keys, vals).insert(keys[i], v);
    assert(keys.contains(keys[i]));
    assert forall|k: K| after.dom().contains(k) implies #[trigger] after[k] == want[k] by {
        let j = keys.index_of(k);
        assert(0 <= j < keys.len() && keys[j] == k);
    }
    assert(after =~= want);
}

/// Putting a new key with its value anywhere into the sequences adds that
/// key to the map.
pub proof fn lemma_assoc_insert<K, V>(keys: Seq<K>, vals: Seq<V>, i: int, k: K, v: V)
    requires
        keys.no_duplicates(),
        keys.len() == vals.len(),
        0 <= i <= keys.len(),
        !keys.contains(k),
    ensures
        keys.insert(i, k).no_duplicates(),
        assoc(keys.insert(i, k), vals.insert(i, v)) == assoc(keys, vals).insert(k, v),
{
    let keys2 = keys.insert(i, k);
    let vals2 = vals.insert(i, v);
    assert forall|a: int, b: int| 0 <= a < keys2.len() && 0 <= b < keys2.len() && a != b implies keys2[a]
        != keys2[b] by {
        let pa = if a < i {
            a
        } else {
            a - 1
        };
        let pb = if b < i {
            b
        } else {
            b - 1
        };
        if a != i && b != i {
            assert(keys2[a] == keys[pa] && keys2[b] == keys[pb]);
        } else if a == i {
            assert(keys2[b] == keys[pb]);
            assert(keys.contains(keys[pb]));
        } else {
            assert(keys2[a] == keys[pa]);
            assert(keys.contains(keys[pa]));
        }
    }
    let after = assoc(keys2, vals2);
    let want = assoc(keys, vals).insert(k, v);
    assert(keys2[i] == k);
    assert forall|x: K| after.dom().contains(x) <==> want.dom().contains(x) by {
        if keys2.contains(x) {
            let a = keys2.index_of(x);
            assert(0 <= a < keys2.len() && keys2[a] == x);
            if a < i {
                assert(keys[a] == x);
            } else if a > i {
                assert(keys[a - 1] == x);
            }
        }
        if keys.contains(x) {
            let a = keys.index_of(x);
            assert(0 <= a < keys.len() && keys[a] == x);
            if a < i {
                assert(keys2[a] == x);
            } else {
                assert(keys2[a + 1] == x);
            }
        }
    }
    assert forall|x: K| after.dom().contains(x) implies #[trigger] after[x] == want[x] by {
        let a = keys2.index_of(x);
        assert(0 <= a < keys2.len() && keys2[a] == x);
        if a < i {
            assert(keys[a] == x);
            lemma_assoc_at(keys, vals, a);
        } else if a > i {
            assert(keys[a - 1] == x);
            lemma_assoc_at(keys, vals, a - 1);
        }
    }
    assert(after =~= want);
}

/// Whether `keys` ascends strictly in the order `less`.
pub open spec fn ascending<K>(keys: Seq<K>, less: spec_fn(K, K) -> bool) -> bool {
    forall|i: int, j: int| 0 <= i < j < keys.len() ==> less(#[trigger] keys[i], #[trigger] keys[j])
}

/// Whether `less` is irreflexive and transitive.
pub open spec fn strict_order<K>(less: spec_fn(K, K) -> bool) -> bool {
    &&& forall|x: K| !#[trigger] less(x, x)
    &&& forall|x: K, y: K, z: K| #[trigger] less(x, y) && #[trigger] less(y, z) ==> less(x, z)
}

/// A strictly ascending sequence holds no key twice.
pub proof fn lemma_ascending_distinct<K>(keys: Seq<K>, less: spec_fn(K, K) -> bool)
    requires
        strict_order(less),
        ascending(keys, less),
    ensures
        keys.no_duplicates(),
{
    assert forall|i: int, j: int| 0 <= i < keys.len() && 0 <= j < keys.len() && i != j implies keys[i]
        != keys[j] by {
        if i < j {
            assert(less(keys[i], keys[j]));
        } else {
            assert(less(keys[j], keys[i]));
        }
    }
}

/// Two strictly ascending sequences with the same members are the same
/// sequence.
pub proof fn lemma_ascending_unique<K>(a: Seq<K>, b: Seq<K>, less: spec_fn(K, K) -> bool)
    requires
        strict_order(less),
        ascending(a, less),
        ascending(b, less),
        forall|k: K| a.contains(k) <==> b.contains(k),
    ensures
        a == b,
    decreases a.len(),
{
    if a.len() == 0 {
        if b.len() > 0 {
            assert(b.contains(b[0]));
        }
        assert(a =~= b);
    } else {
        assert(a.contains(a[0]));
        let j = b.index_of(a[0]);
        assert(0 <= j < b.len() && b[j] == a[0]);
        assert(b.contains(b[0]));
        let i = a.index_of(b[0]);
        assert(0 <= i < a.len() && a[i] == b[0]);
        if i > 0 && j > 0 {
            assert(less(a[0], a[i]));
            assert(less(b[0], b[j]));
            assert(less(a[0], a[0]));
        }
        assert(a[0] == b[0]);
        let ra = a.drop_first();
        let rb = b.drop_first();
        assert forall|k: K| ra.contains(k) <==> rb.contains(k) by {
            if ra.contains(k) {
                let p = ra.index_of(k);
                assert(0 <= p < ra.len() && ra[p] == k);
                assert(a[p + 1] == k);
                assert(less(a[0], a[p + 1]));
                assert(a.contains(k));
                let q = b.index_of(k);
                assert(0 <= q < b.len() && b[q] == k);
                assert(q != 0);
                assert(rb[q - 1] == k);
            }
            if rb.contains(k) {
                let p = rb.index_of(k);
                assert(0 <= p < rb.len() && rb[p] == k);
                assert(b[p + 1] == k);
                assert(less(b[0], b[p + 1]));
                assert(b.contains(k));
                let q = a.index_of(k);
                assert(0 <= q < a.len() && a[q] == k);
                assert(q != 0);
                assert(ra[q - 1] == k);
            }
        }
        assert(ascending(ra, less)) by {
            assert forall|p: int, q: int| 0 <= p < q < ra.len() implies less(
                #[trigger] ra[p],
                #[trigger] ra[q],
            ) by {
                assert(less(a[p + 1], a[q + 1]));
            }
        }
        assert(ascending(rb, less)) by {
            assert forall|p: int, q: int| 0 <= p < q < rb.len() implies less(
                #[trigger] rb[p],
                #[trigger] rb[q],
            ) by {
                assert(less(b[p + 1], b[q + 1]));
            }
        }
        lemma_ascending_unique(ra, rb, less);
        assert(a =~= seq![a[0]] + ra);
        assert(b =~= seq![b[0]] + rb);
    }
}

} // verus!
