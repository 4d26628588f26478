//! Association lists: sequences of key/value pairs read as finite maps,
//! with the facts needed to follow them through updates.

use vstd::prelude::*;

verus! {

/// No key occurs twice.
pub open spec fn keys_distinct<K, V>(s: Seq<(K, V)>) -> bool {
    forall|i: int, j: int|
        0 <= i < s.len() && 0 <= j < s.len() && i != j ==> #[trigger] s[i].0 != #[trigger] s[j].0
}

/// Some entry has key `k`.
pub open spec fn assoc_has<K, V>(s: Seq<(K, V)>, k: K) -> bool {
    exists|i: int| 0 <= i < s.len() && #[trigger] s[i].0 == k
}

/// The index of an entry with key `k`.
pub open spec fn assoc_index<K, V>(s: Seq<(K, V)>, k: K) -> int {
    choose|i: int| 0 <= i < s.len() && #[trigger] s[i].0 == k
}

/// The map an association list stands for.
pub open spec fn assoc_map<K, V>(s: Seq<(K, V)>) -> Map<K, V> {
    Map::new(|k: K| assoc_has(s, k), |k: K| s[assoc_index(s, k)].1)
}

/// Every entry is in the map, under its key, and the map holds nothing else.
pub proof fn lemma_assoc_map<K, V>(s: Seq<(K, V)>)
    requires
        keys_distinct(s),
    ensures
        forall|i: int|
            0 <= i < s.len() ==> #[trigger] assoc_map(s).contains_key(s[i].0) && assoc_map(s)[s[i].0]
                == s[i].1,
        forall|k: K| #[trigger]
            assoc_map(s).contains_key(k) ==> exists|i: int| 0 <= i < s.len() && #[trigger] s[i].0 == k,
{
    assert forall|i: int| 0 <= i < s.len() implies #[trigger] assoc_map(s).contains_key(s[i].0)
        && assoc_map(s)[s[i].0] == s[i].1 by {
        assert(assoc_has(s, s[i].0));
        let j = assoc_index(s, s[i].0);
        assert(s[j].0 == s[i].0);
    }
}

/// Replacing the value of entry `i` replaces the value under its key.
pub proof fn lemma_assoc_update<K, V>(s: Seq<(K, V)>, i: int, v: V)
    requires
        keys_distinct(s),
        0 <= i < s.len(),
    ensures
        keys_distinct(s.update(i, (s[i].0, v))),
        assoc_map(s.update(i, (s[i].0, v))) == assoc_map(s).insert(s[i].0, v),
{
    let t = s.update(i, (s[i].0, v));
    assert(keys_distinct(t)) by {
        assert forall|a: int, b: int| 0 <= a < t.len() && 0 <= b < t.len() && a != b implies #[trigger] t[a].0
            != #[trigger] t[b].0 by {
            assert(t[a].0 == s[a].0);
            assert(t[b].0 == s[b].0);
        }
    }
    lemma_assoc_map(s);
    lemma_assoc_map(t);
    assert forall|k: K| #[trigger] assoc_map(t).contains_key(k) == assoc_map(s).insert(s[i].0, v).contains_key(k) by {
        if assoc_map(s).contains_key(k) {
            let j = choose|j: int| 0 <= j < s.len() && #[trigger] s[j].0 == k;
            assert(t[j].0 == k);
        }
        if assoc_map(t).contains_key(k) {
            let j = choose|j: int| 0 <= j < t.len() && #[trigger] t[j].0 == k;
            assert(s[j].0 == k);
        }
        if k == s[i].0 {
            assert(t[i].0 == k);
        }
    }
    assert(assoc_map(t) =~= assoc_map(s).insert(s[i].0, v)) by {
        assert forall|k: K| #[trigger] assoc_map(t).contains_key(k) implies assoc_map(t)[k] == assoc_map(
            s,
        ).insert(s[i].0, v)[k] by {
            let j = choose|j: int| 0 <= j < t.len() && #[trigger] t[j].0 == k;
            assert(s[j].0 == k);
        }
    }
}

/// Inserting an entry with a new key adds that key to the map.
pub proof fn lemma_assoc_insert<K, V>(s: Seq<(K, V)>, pos: int, k: K, v: V)
    requires
        keys_distinct(s),
        0 <= pos <= s.len(),
        !assoc_map(s).contains_key(k),
    ensures
        keys_distinct(s.insert(pos, (k, v))),
        assoc_map(s.insert(pos, (k, v))) == assoc_map(s).insert(k, v),
{
    let t = s.insert(pos, (k, v));
    lemma_assoc_map(s);
    assert forall|j: int| 0 <= j < s.len() implies s[j].0 != k by {
        assert(assoc_map(s).contains_key(s[j].0));
    }
    assert(keys_distinct(t)) by {
        assert forall|a: int, b: int| 0 <= a < t.len() && 0 <= b < t.len() && a != b implies #[trigger] t[a].0
            != #[trigger] t[b].0 by {
            if a < pos {
                assert(t[a] == s[a]);
            } else if a > pos {
                assert(t[a] == s[a - 1]);
            }
            if b < pos {
                assert(t[b] == s[b]);
            } else if b > pos {
                assert(t[b] == s[b - 1]);
            }
        }
    }
    lemma_assoc_map(t);
    assert forall|kk: K| #[trigger] assoc_map(t).contains_key(kk) == assoc_map(s).insert(k, v).contains_key(kk) by {
        if assoc_map(s).contains_key(kk) {
            let j = choose|j: int| 0 <= j < s.len() && #[trigger] s[j].0 == kk;
            if j < pos {
                assert(t[j] == s[j]);
            } else {
                assert(t[j + 1] == s[j]);
            }
        }
        if assoc_map(t).contains_key(kk) {
            let j = choose|j: int| 0 <= j < t.len() && #[trigger] t[j].0 == kk;
            if j < pos {
                assert(t[j] == s[j]);
            } else if j > pos {
                assert(t[j] == s[j - 1]);
            }
        }
        if kk == k {
            assert(t[pos].0 == k);
        }
    }
    assert(assoc_map(t) =~= assoc_map(s).insert(k, v)) by {
        assert forall|kk: K| #[trigger] assoc_map(t).contains_key(kk) implies assoc_map(t)[kk] == assoc_map(
            s,
        ).insert(k, v)[kk] by {
            let j = choose|j: int| 0 <= j < t.len() && #[trigger] t[j].0 == kk;
            if j < pos {
                assert(t[j] == s[j]);
            } else if j > pos {
                assert(t[j] == s[j - 1]);
            }
        }
    }
}

/// Removing entry `i` removes its key from the map.
pub proof fn lemma_assoc_remove<K, V>(s: Seq<(K, V)>, i: int)
    requires
        keys_distinct(s),
        0 <= i < s.len(),
    ensures
        keys_distinct(s.remove(i)),
        assoc_map(s.remove(i)) == assoc_map(s).remove(s[i].0),
{
    let t = s.remove(i);
    lemma_assoc_map(s);
    assert(keys_distinct(t)) by {
        assert forall|a: int, b: int| 0 <= a < t.len() && 0 <= b < t.len() && a != b implies #[trigger] t[a].0
            != #[trigger] t[b].0 by {
            if a < i {
                assert(t[a] == s[a]);
            } else {
                assert(t[a] == s[a + 1]);
            }
            if b < i {
                assert(t[b] == s[b]);
            } else {
                assert(t[b] == s[b + 1]);
            }
        }
    }
    lemma_assoc_map(t);
    assert forall|kk: K| #[trigger] assoc_map(t).contains_key(kk) == assoc_map(s).remove(s[i].0).contains_key(kk) by {
        if assoc_map(s).contains_key(kk) && kk != s[i].0 {
            let j = choose|j: int| 0 <= j < s.len() && #[trigger] s[j].0 == kk;
            if j < i {
                assert(t[j] == s[j]);
            } else {
                assert(j != i);
                assert(t[j - 1] == s[j]);
            }
        }
        if assoc_map(t).contains_key(kk) {
            let j = choose|j: int| 0 <= j < t.len() && #[trigger] t[j].0 == kk;
            if j < i {
                assert(t[j] == s[j]);
            } else {
                assert(t[j] == s[j + 1]);
            }
        }
    }
    assert(assoc_map(t) =~= assoc_map(s).remove(s[i].0)) by {
        assert forall|kk: K| #[trigger] assoc_map(t).contains_key(kk) implies assoc_map(t)[kk] == assoc_map(
            s,
        ).remove(s[i].0)[kk] by {
            let j = choose|j: int| 0 <= j < t.len() && #[trigger] t[j].0 == kk;
            if j < i {
                assert(t[j] == s[j]);
            } else {
                assert(t[j] == s[j + 1]);
            }
        }
    }
}

/// Pushing an entry with a new key adds that key to the map.
pub proof fn lemma_assoc_push<K, V>(s: Seq<(K, V)>, k: K, v: V)
    requires
        keys_distinct(s),
        !assoc_map(s).contains_key(k),
    ensures
        keys_distinct(s.push((k, v))),
        assoc_map(s.push((k, v))) == assoc_map(s).insert(k, v),
{
    assert(s.push((k, v)) == s.insert(s.len() as int, (k, v)));
    lemma_assoc_insert(s, s.len() as int, k, v);
}

/// The empty list is the empty map.
pub proof fn lemma_assoc_empty<K, V>(s: Seq<(K, V)>)
    requires
        s.len() == 0,
    ensures
        keys_distinct(s),
        assoc_map(s) == Map::<K, V>::empty(),
{
    assert(assoc_map(s) =~= Map::<K, V>::empty());
}

} // verus!
