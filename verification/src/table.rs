//! Association lists as finite maps.
//!
//! The coordinator keeps its tables as vectors of key-value pairs in which no
//! key occurs twice. This module says which map such a sequence stands for,
//! and how pushing, overwriting and removing a pair changes that map.

use vstd::prelude::*;

verus! {

/// Some pair of `s` has the key `k`.
pub open spec fn has_key<K, V>(s: Seq<(K, V)>, k: K) -> bool {
    exists|i: int| 0 <= i < s.len() && (#[trigger] s[i]).0 == k
}

/// A position of `s` that holds the key `k`, if there is one.
pub open spec fn slot_of<K, V>(s: Seq<(K, V)>, k: K) -> int {
    choose|i: int| 0 <= i < s.len() && (#[trigger] s[i]).0 == k
}

/// No key occurs at two positions of `s`.
pub open spec fn keys_distinct<K, V>(s: Seq<(K, V)>) -> bool {
    forall|i: int, j: int| 0 <= i < j < s.len() ==> (#[trigger] s[i]).0 != (#[trigger] s[j]).0
}

/// The map that `s` stands for.
pub open spec fn table_of<K, V>(s: Seq<(K, V)>) -> Map<K, V> {
    Map::new(|k: K| has_key(s, k), |k: K| s[slot_of(s, k)].1)
}

/// The pair at position `i` is what the map holds for its key.
pub proof fn lemma_slot<K, V>(s: Seq<(K, V)>, i: int)
    requires
        keys_distinct(s),
        0 <= i < s.len(),
    ensures
        has_key(s, s[i].0),
        slot_of(s, s[i].0) == i,
        table_of(s).dom().contains(s[i].0),
        table_of(s)[s[i].0] == s[i].1,
{
    let k = s[i].0;
    assert(s[i].0 == k);
    let j = slot_of(s, k);
    assert(0 <= j < s.len() && s[j].0 == k);
    if i < j {
        assert(s[i].0 != s[j].0);
    } else if j < i {
        assert(s[j].0 != s[i].0);
    }
}

/// Pushing a pair with a new key inserts it into the map.
pub proof fn lemma_push<K, V>(s: Seq<(K, V)>, k: K, v: V)
    requires
        keys_distinct(s),
        !has_key(s, k),
    ensures
        keys_distinct(s.push((k, v))),
        table_of(s.push((k, v))) == table_of(s).insert(k, v),
{
    let t = s.push((k, v));
    assert forall|i: int, j: int| 0 <= i < j < t.len() implies (#[trigger] t[i]).0 != (
    #[trigger] t[j]).0 by {
        assert(t[i] == s[i]);
        if j < s.len() {
            assert(t[j] == s[j]);
        }
    }
    assert forall|q: K| has_key(t, q) <==> (q == k || has_key(s, q)) by {
        if has_key(t, q) {
            let i = slot_of(t, q);
            if i < s.len() {
                assert(s[i].0 == q);
            }
        }
        if has_key(s, q) {
            let i = slot_of(s, q);
            assert(t[i].0 == q);
        }
        if q == k {
            assert(t[s.len() as int].0 == k);
        }
    }
    assert forall|q: K| has_key(t, q) implies table_of(t)[q] == table_of(s).insert(k, v)[q] by {
        if q == k {
            lemma_slot(t, s.len() as int);
        } else {
            let i = slot_of(s, q);
            assert(t[i] == s[i]);
            lemma_slot(t, i);
        }
    }
    assert(table_of(t) =~= table_of(s).insert(k, v));
}

/// Overwriting the value at position `i` overwrites it in the map.
pub proof fn lemma_update<K, V>(s: Seq<(K, V)>, i: int, v: V)
    requires
        keys_distinct(s),
        0 <= i < s.len(),
    ensures
        keys_distinct(s.update(i, (s[i].0, v))),
        table_of(s.update(i, (s[i].0, v))) == table_of(s).insert(s[i].0, v),
{
    let k = s[i].0;
    let t = s.update(i, (k, v));
    assert forall|a: int| 0 <= a < s.len() implies (#[trigger] t[a]).0 == s[a].0 by {}
    assert forall|a: int, b: int| 0 <= a < b < t.len() implies (#[trigger] t[a]).0 != (
    #[trigger] t[b]).0 by {
        assert(s[a].0 != s[b].0);
    }
    assert forall|q: K| has_key(t, q) <==> (q == k || has_key(s, q)) by {
        if has_key(t, q) {
            let a = slot_of(t, q);
            assert(s[a].0 == q);
        }
        if has_key(s, q) {
            let a = slot_of(s, q);
            assert(t[a].0 == q);
        }
        if q == k {
            assert(t[i].0 == k);
        }
    }
    assert forall|q: K| has_key(t, q) implies table_of(t)[q] == table_of(s).insert(k, v)[q] by {
        if q == k {
            lemma_slot(t, i);
        } else {
            let a = slot_of(s, q);
            lemma_slot(s, a);
            assert(t[a] == s[a]);
            lemma_slot(t, a);
        }
    }
    assert(table_of(t) =~= table_of(s).insert(k, v));
}

/// Removing the pair at position `i` removes its key from the map.
pub proof fn lemma_remove<K, V>(s: Seq<(K, V)>, i: int)
    requires
        keys_distinct(s),
        0 <= i < s.len(),
    ensures
        keys_distinct(s.remove(i)),
        table_of(s.remove(i)) == table_of(s).remove(s[i].0),
{
    let k = s[i].0;
    let t = s.remove(i);
    assert forall|a: int| 0 <= a < t.len() implies #[trigger] t[a] == s[if a < i { a } else { a + 1 }] by {}
    assert forall|a: int, b: int| 0 <= a < b < t.len() implies (#[trigger] t[a]).0 != (
    #[trigger] t[b]).0 by {
        let a2 = if a < i { a } else { a + 1 };
        let b2 = if b < i { b } else { b + 1 };
        assert(s[a2].0 != s[b2].0);
    }
    assert forall|q: K| has_key(t, q) <==> (q != k && has_key(s, q)) by {
        if has_key(t, q) {
            let a = slot_of(t, q);
            let a2 = if a < i { a } else { a + 1 };
            assert(s[a2].0 == q);
            if a2 < i {
                assert(s[a2].0 != s[i].0);
            } else {
                assert(s[i].0 != s[a2].0);
            }
        }
        if q != k && has_key(s, q) {
            let a = slot_of(s, q);
            let a1 = if a < i { a } else { a - 1 };
            assert(t[a1].0 == q);
        }
    }
    assert forall|q: K| has_key(t, q) implies table_of(t)[q] == table_of(s).remove(k)[q] by {
        let a = slot_of(s, q);
        let a1 = if a < i { a } else { a - 1 };
        lemma_slot(s, a);
        assert(t[a1] == s[a]);
        lemma_slot(t, a1);
    }
    assert(table_of(t) =~= table_of(s).remove(k));
}

} // verus!
