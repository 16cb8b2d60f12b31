//! Facts about sequences of named entries whose names are all distinct: the
//! shape of the directory and of the per-user logs.

use vstd::prelude::*;

verus! {

/// No two entries share a name.
pub open spec fn keys_unique<T>(v: Seq<(Seq<char>, T)>) -> bool {
    forall|i: int, j: int| 0 <= i < j < v.len() ==> v[i].0 != v[j].0
}

/// Some entry is named `k`.
pub open spec fn has_key<T>(v: Seq<(Seq<char>, T)>, k: Seq<char>) -> bool {
    exists|i: int| 0 <= i < v.len() && v[i].0 == k
}

/// The position of the entry named `k`, where there is one.
pub open spec fn key_index<T>(v: Seq<(Seq<char>, T)>, k: Seq<char>) -> int
    recommends
        has_key(v, k),
{
    choose|i: int| 0 <= i < v.len() && v[i].0 == k
}

/// The value stored under `k`, if any.
pub open spec fn key_value<T>(v: Seq<(Seq<char>, T)>, k: Seq<char>) -> Option<T> {
    if has_key(v, k) {
        Some(v[key_index(v, k)].1)
    } else {
        None
    }
}

/// The names of the entries, in order.
pub open spec fn keys_of<T>(v: Seq<(Seq<char>, T)>) -> Seq<Seq<char>> {
    v.map_values(|e: (Seq<char>, T)| e.0)
}

/// With distinct names, the entry named `k` is the one at `i`.
pub proof fn lemma_key_index<T>(v: Seq<(Seq<char>, T)>, i: int)
    requires
        keys_unique(v),
        0 <= i < v.len(),
    ensures
        has_key(v, v[i].0),
        key_index(v, v[i].0) == i,
        key_value(v, v[i].0) == Some(v[i].1),
{
    let k = v[i].0;
    assert(v[i].0 == k);
    let j = key_index(v, k);
    if j < i {
        assert(v[j].0 != v[i].0);
    } else if i < j {
        assert(v[i].0 != v[j].0);
    }
}

/// Replacing the value of an entry keeps the names distinct; the entry's name
/// now gives the new value, and every other name what it gave before.
pub proof fn lemma_key_update<T>(v: Seq<(Seq<char>, T)>, i: int, val: T, k: Seq<char>)
    requires
        keys_unique(v),
        0 <= i < v.len(),
    ensures
        keys_unique(v.update(i, (v[i].0, val))),
        key_value(v.update(i, (v[i].0, val)), k) == if k == v[i].0 {
            Some(val)
        } else {
            key_value(v, k)
        },
{
    let w = v.update(i, (v[i].0, val));
    assert(keys_of(w) =~= keys_of(v));
    assert forall|a: int, b: int| 0 <= a < b < w.len() implies w[a].0 != w[b].0 by {
        assert(w[a].0 == v[a].0 && w[b].0 == v[b].0);
    }
    if k == v[i].0 {
        lemma_key_index(w, i);
    } else if has_key(w, k) {
        let j = key_index(w, k);
        assert(v[j].0 == k);
        lemma_key_index(v, j);
        lemma_key_index(w, j);
    } else {
        if has_key(v, k) {
            let j = key_index(v, k);
            assert(w[j].0 == k);
        }
    }
}

/// Adding an entry under a new name keeps the names distinct; the new name
/// gives its value, and every other name what it gave before.
pub proof fn lemma_key_push<T>(v: Seq<(Seq<char>, T)>, n: Seq<char>, val: T, k: Seq<char>)
    requires
        keys_unique(v),
        !has_key(v, n),
    ensures
        keys_unique(v.push((n, val))),
        key_value(v.push((n, val)), k) == if k == n {
            Some(val)
        } else {
            key_value(v, k)
        },
{
    let w = v.push((n, val));
    assert forall|a: int, b: int| 0 <= a < b < w.len() implies w[a].0 != w[b].0 by {
        if b == v.len() {
            assert(v[a].0 == w[a].0);
        } else {
            assert(w[a].0 == v[a].0 && w[b].0 == v[b].0);
        }
    }
    if k == n {
        lemma_key_index(w, v.len() as int);
    } else if has_key(w, k) {
        let j = key_index(w, k);
        assert(j < v.len());
        assert(v[j].0 == k);
        lemma_key_index(v, j);
        lemma_key_index(w, j);
    } else {
        if has_key(v, k) {
            let j = key_index(v, k);
            assert(w[j].0 == k);
        }
    }
}

/// Removing an entry keeps the names distinct, and its name gives nothing.
pub proof fn lemma_key_remove<T>(v: Seq<(Seq<char>, T)>, i: int)
    requires
        keys_unique(v),
        0 <= i < v.len(),
    ensures
        keys_unique(v.remove(i)),
        !has_key(v.remove(i), v[i].0),
{
    let w = v.remove(i);
    assert forall|a: int, b: int| 0 <= a < b < w.len() implies w[a].0 != w[b].0 by {
        if b < i {
        } else if a < i {
            assert(w[b] == v[b + 1]);
        } else {
            assert(w[a] == v[a + 1] && w[b] == v[b + 1]);
        }
    }
    if has_key(w, v[i].0) {
        let j = choose|j: int| 0 <= j < w.len() && w[j].0 == v[i].0;
        if j < i {
            assert(v[j].0 == v[i].0);
        } else {
            assert(w[j] == v[j + 1]);
        }
    }
}

} // verus!
