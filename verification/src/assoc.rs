//! Association lists: sequences of key-value pairs with distinct keys, read as maps.
use vstd::prelude::*;

verus! {

/// No key occurs twice.
pub open spec fn unique_keys<K, V>(ps: Seq<(K, V)>) -> bool {
    forall|i: int, j: int| 0 <= i < ps.len() && 0 <= j < ps.len() && i != j ==> ps[i].0 != ps[j].0
}

/// The key `k` occurs in `ps`.
pub open spec fn in_keys<K, V>(ps: Seq<(K, V)>, k: K) -> bool {
    exists|i: int| 0 <= i < ps.len() && ps[i].0 == k
}

/// The map that `ps` stands for.
pub open spec fn assoc<K, V>(ps: Seq<(K, V)>) -> Map<K, V> {
    Map::new(
        |k: K| in_keys(ps, k),
        |k: K| ps[choose|i: int| 0 <= i < ps.len() && ps[i].0 == k].1,
    )
}

/// An entry of `ps` is the map's entry for its key.
pub proof fn lemma_assoc_index<K, V>(ps: Seq<(K, V)>, i: int)
    requires
        unique_keys(ps),
        0 <= i < ps.len(),
    ensures
        assoc(ps).contains_key(ps[i].0),
        assoc(ps)[ps[i].0] == ps[i].1,
{
    assert(in_keys(ps, ps[i].0));
    let j = choose|j: int| 0 <= j < ps.len() && ps[j].0 == ps[i].0;
    assert(j == i);
}

/// Pushing a new key inserts it.
pub proof fn lemma_assoc_push<K, V>(ps: Seq<(K, V)>, k: K, v: V)
    requires
        unique_keys(ps),
        !assoc(ps).contains_key(k),
    ensures
        unique_keys(ps.push((k, v))),
        assoc(ps.push((k, v))) == assoc(ps).insert(k, v),
{
    let qs = ps.push((k, v));
    assert forall|i: int, j: int| 0 <= i < qs.len() && 0 <= j < qs.len() && i != j implies qs[i].0 != qs[j].0 by {
        if i == ps.len() as int {
            assert(!in_keys(ps, k));
            assert(qs[j] == ps[j]);
        } else if j == ps.len() as int {
            assert(!in_keys(ps, k));
            assert(qs[i] == ps[i]);
        } else {
            assert(qs[i] == ps[i] && qs[j] == ps[j]);
        }
    }
    assert forall|x: K| #[trigger] in_keys(qs, x) == (in_keys(ps, x) || x == k) by {
        if in_keys(ps, x) {
            let j = choose|j: int| 0 <= j < ps.len() && ps[j].0 == x;
            assert(qs[j].0 == x);
        }
        if x == k {
            assert(qs[ps.len() as int].0 == x);
        }
        if in_keys(qs, x) && x != k {
            let j = choose|j: int| 0 <= j < qs.len() && qs[j].0 == x;
            assert(ps[j].0 == x);
        }
    }
    assert forall|x: K| #[trigger] assoc(qs).contains_key(x) implies assoc(qs)[x] == assoc(ps).insert(k, v)[x] by {
        let j = choose|j: int| 0 <= j < qs.len() && qs[j].0 == x;
        lemma_assoc_index(qs, j);
        if x != k {
            assert(j < ps.len());
            assert(qs[j] == ps[j]);
            lemma_assoc_index(ps, j);
        } else {
            lemma_assoc_index(qs, ps.len() as int);
        }
    }
    assert(assoc(qs) =~= assoc(ps).insert(k, v));
}

/// Replacing the value of an entry updates the map at its key.
pub proof fn lemma_assoc_update<K, V>(ps: Seq<(K, V)>, i: int, v: V)
    requires
        unique_keys(ps),
        0 <= i < ps.len(),
    ensures
        unique_keys(ps.update(i, (ps[i].0, v))),
        assoc(ps.update(i, (ps[i].0, v))) == assoc(ps).insert(ps[i].0, v),
{
    let k = ps[i].0;
    let qs = ps.update(i, (k, v));
    assert forall|a: int, b: int| 0 <= a < qs.len() && 0 <= b < qs.len() && a != b implies qs[a].0 != qs[b].0 by {
        assert(qs[a].0 == ps[a].0 && qs[b].0 == ps[b].0);
    }
    assert forall|x: K| #[trigger] in_keys(qs, x) == in_keys(ps, x) by {
        if in_keys(ps, x) {
            let j = choose|j: int| 0 <= j < ps.len() && ps[j].0 == x;
            assert(qs[j].0 == x);
        }
        if in_keys(qs, x) {
            let j = choose|j: int| 0 <= j < qs.len() && qs[j].0 == x;
            assert(ps[j].0 == x);
        }
    }
    lemma_assoc_index(ps, i);
    assert forall|x: K| #[trigger] assoc(qs).contains_key(x) implies assoc(qs)[x] == assoc(ps).insert(k, v)[x] by {
        let j = choose|j: int| 0 <= j < qs.len() && qs[j].0 == x;
        lemma_assoc_index(qs, j);
        if j != i {
            assert(qs[j] == ps[j]);
            lemma_assoc_index(ps, j);
        }
    }
    assert(assoc(qs) =~= assoc(ps).insert(k, v));
}

/// Removing an entry removes its key.
pub proof fn lemma_assoc_remove<K, V>(ps: Seq<(K, V)>, i: int)
    requires
        unique_keys(ps),
        0 <= i < ps.len(),
    ensures
        unique_keys(ps.remove(i)),
        assoc(ps.remove(i)) == assoc(ps).remove(ps[i].0),
{
    let k = ps[i].0;
    let qs = ps.remove(i);
    assert forall|a: int, b: int| 0 <= a < qs.len() && 0 <= b < qs.len() && a != b implies qs[a].0 != qs[b].0 by {
        let a2 = if a < i { a } else { a + 1 };
        let b2 = if b < i { b } else { b + 1 };
        assert(qs[a] == ps[a2] && qs[b] == ps[b2]);
    }
    assert forall|x: K| #[trigger] in_keys(qs, x) == (in_keys(ps, x) && x != k) by {
        if in_keys(qs, x) {
            let j = choose|j: int| 0 <= j < qs.len() && qs[j].0 == x;
            let j2 = if j < i { j } else { j + 1 };
            assert(ps[j2].0 == x);
            assert(j2 != i);
        }
        if in_keys(ps, x) && x != k {
            let j = choose|j: int| 0 <= j < ps.len() && ps[j].0 == x;
            if j < i {
                assert(qs[j].0 == x);
            } else {
                assert(j != i);
                assert(qs[j - 1].0 == x);
            }
        }
    }
    assert forall|x: K| #[trigger] assoc(qs).contains_key(x) implies assoc(qs)[x] == assoc(ps).remove(k)[x] by {
        let j = choose|j: int| 0 <= j < qs.len() && qs[j].0 == x;
        lemma_assoc_index(qs, j);
        let j2 = if j < i { j } else { j + 1 };
        assert(qs[j] == ps[j2]);
        lemma_assoc_index(ps, j2);
    }
    assert(assoc(qs) =~= assoc(ps).remove(k));
}

} // verus!
