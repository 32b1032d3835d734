//! Association lists with distinct keys, read as finite maps.

use vstd::prelude::*;

verus! {

/// Whether no key occurs in two entries of `p`.
pub open spec fn distinct_keys<K, V>(p: Seq<(K, V)>) -> bool {
    forall|i: int, j: int| 0 <= i < j < p.len() ==> (#[trigger] p[i]).0 != (#[trigger] p[j]).0
}

/// Whether some entry of `p` has the key `k`.
pub open spec fn has_key<K, V>(p: Seq<(K, V)>, k: K) -> bool {
    exists|i: int| 0 <= i < p.len() && (#[trigger] p[i]).0 == k
}

/// The map that holds, for each key of `p`, the value of an entry with that
/// key. Where the keys are distinct there is one such entry.
pub open spec fn as_map<K, V>(p: Seq<(K, V)>) -> Map<K, V> {
    Map::new(
        |k: K| has_key(p, k),
        |k: K| p[choose|i: int| 0 <= i < p.len() && (#[trigger] p[i]).0 == k].1,
    )
}

/// With distinct keys, each entry is what the map holds for its key.
pub proof fn lemma_as_map_entry<K, V>(p: Seq<(K, V)>, i: int)
    requires
        distinct_keys(p),
        0 <= i < p.len(),
    ensures
        as_map(p).dom().contains(p[i].0),
        as_map(p)[p[i].0] == p[i].1,
{
    let k = p[i].0;
    assert(has_key(p, k));
    let j = choose|j: int| 0 <= j < p.len() && (#[trigger] p[j]).0 == k;
    if i < j {
        assert(p[i].0 != p[j].0);
    } else if j < i {
        assert(p[j].0 != p[i].0);
    }
}

/// The empty list is the empty map.
pub proof fn lemma_as_map_empty<K, V>(p: Seq<(K, V)>)
    requires
        p.len() == 0,
    ensures
        as_map(p) == Map::<K, V>::empty(),
        distinct_keys(p),
{
    assert(as_map(p) =~= Map::<K, V>::empty());
}

/// Appending an entry with a new key inserts it into the map.
pub proof fn lemma_as_map_push<K, V>(p: Seq<(K, V)>, k: K, v: V)
    requires
        distinct_keys(p),
        !has_key(p, k),
    ensures
        distinct_keys(p.push((k, v))),
        as_map(p.push((k, v))) == as_map(p).insert(k, v),
{
    let q = p.push((k, v));
    assert forall|i: int, j: int| 0 <= i < j < q.len() implies (#[trigger] q[i]).0 != (
    #[trigger] q[j]).0 by {
        if j < p.len() {
            assert(p[i].0 != p[j].0);
        } else {
            assert(q[i] == p[i]);
        }
    }
    assert forall|x: K| #[trigger] has_key(q, x) <==> has_key(p, x) || x == k by {
        if has_key(q, x) {
            let i = choose|i: int| 0 <= i < q.len() && (#[trigger] q[i]).0 == x;
            if i < p.len() {
                assert(p[i].0 == x);
            }
        }
        if has_key(p, x) {
            let i = choose|i: int| 0 <= i < p.len() && (#[trigger] p[i]).0 == x;
            assert(q[i].0 == x);
        }
        if x == k {
            assert(q[p.len() as int].0 == x);
        }
    }
    assert forall|x: K| has_key(q, x) implies #[trigger] as_map(q)[x] == as_map(p).insert(k, v)[x] by {
        let i = choose|i: int| 0 <= i < q.len() && (#[trigger] q[i]).0 == x;
        lemma_as_map_entry(q, i);
        if i < p.len() {
            assert(q[i] == p[i]);
            lemma_as_map_entry(p, i);
        }
    }
    assert(as_map(q) =~= as_map(p).insert(k, v));
}

/// Dropping the last entry keeps the keys distinct.
pub proof fn lemma_distinct_drop_last<K, V>(p: Seq<(K, V)>)
    requires
        distinct_keys(p),
        p.len() > 0,
    ensures
        distinct_keys(p.drop_last()),
        !has_key(p.drop_last(), p.last().0),
{
    let q = p.drop_last();
    assert forall|i: int, j: int| 0 <= i < j < q.len() implies (#[trigger] q[i]).0 != (
    #[trigger] q[j]).0 by {
        assert(p[i].0 != p[j].0);
    }
    if has_key(q, p.last().0) {
        let i = choose|i: int| 0 <= i < q.len() && (#[trigger] q[i]).0 == p.last().0;
        assert(p[i].0 != p[p.len() - 1].0);
    }
}

/// Replacing the value of an entry replaces it in the map.
pub proof fn lemma_as_map_update<K, V>(p: Seq<(K, V)>, i: int, v: V)
    requires
        distinct_keys(p),
        0 <= i < p.len(),
    ensures
        distinct_keys(p.update(i, (p[i].0, v))),
        as_map(p.update(i, (p[i].0, v))) == as_map(p).insert(p[i].0, v),
{
    let k = p[i].0;
    let q = p.update(i, (k, v));
    assert forall|a: int, b: int| 0 <= a < b < q.len() implies (#[trigger] q[a]).0 != (
    #[trigger] q[b]).0 by {
        assert(p[a].0 != p[b].0);
    }
    assert forall|x: K| #[trigger] has_key(q, x) <==> has_key(p, x) by {
        if has_key(q, x) {
            let j = choose|j: int| 0 <= j < q.len() && (#[trigger] q[j]).0 == x;
            assert(p[j].0 == x);
        }
        if has_key(p, x) {
            let j = choose|j: int| 0 <= j < p.len() && (#[trigger] p[j]).0 == x;
            assert(q[j].0 == x);
        }
    }
    assert(has_key(p, k));
    assert forall|x: K| has_key(q, x) implies #[trigger] as_map(q)[x] == as_map(p).insert(k, v)[x] by {
        let j = choose|j: int| 0 <= j < q.len() && (#[trigger] q[j]).0 == x;
        lemma_as_map_entry(q, j);
        if j != i {
            assert(q[j] == p[j]);
            lemma_as_map_entry(p, j);
            if j < i {
                assert(p[j].0 != p[i].0);
            } else {
                assert(p[i].0 != p[j].0);
            }
        }
    }
    assert(as_map(q) =~= as_map(p).insert(k, v));
}

/// With distinct keys, the map has as many keys as the list has entries.
pub proof fn lemma_as_map_len<K, V>(p: Seq<(K, V)>)
    requires
        distinct_keys(p),
    ensures
        as_map(p).dom().finite(),
        as_map(p).dom().len() == p.len(),
    decreases p.len(),
{
    if p.len() == 0 {
        lemma_as_map_empty(p);
    } else {
        let q = p.drop_last();
        lemma_distinct_drop_last(p);
        lemma_as_map_len(q);
        lemma_as_map_push(q, p.last().0, p.last().1);
        assert(q.push((p.last().0, p.last().1)) =~= p);
        assert(!as_map(q).dom().contains(p.last().0));
    }
}

} // verus!
