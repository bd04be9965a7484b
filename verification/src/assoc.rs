//! Maps kept as lists of entries with distinct keys: what such a list means as a map.
use vstd::prelude::*;

verus! {

/// The map a list of entries stands for: each entry's key to its value, later entries winning.
pub open spec fn assoc<K, E, V>(v: Seq<E>, key: spec_fn(E) -> K, val: spec_fn(E) -> V) -> Map<K, V>
    decreases v.len(),
{
    if v.len() == 0 {
        Map::empty()
    } else {
        assoc(v.drop_last(), key, val).insert(key(v.last()), val(v.last()))
    }
}

/// No two entries share a key.
pub open spec fn distinct_by<K, E>(v: Seq<E>, key: spec_fn(E) -> K) -> bool {
    forall|i: int, j: int| 0 <= i < j < v.len() ==> key(v[i]) != key(v[j])
}

pub proof fn lemma_assoc_contains<K, E, V>(v: Seq<E>, key: spec_fn(E) -> K, val: spec_fn(E) -> V, k: K)
    ensures
        assoc(v, key, val).contains_key(k) <==> exists|i: int| 0 <= i < v.len() && key(v[i]) == k,
    decreases v.len(),
{
    if v.len() > 0 {
        let w = v.drop_last();
        lemma_assoc_contains(w, key, val, k);
        if exists|i: int| 0 <= i < w.len() && key(w[i]) == k {
            let i = choose|i: int| 0 <= i < w.len() && key(w[i]) == k;
            assert(v[i] == w[i]);
        }
        if exists|i: int| 0 <= i < v.len() && key(v[i]) == k {
            let i = choose|i: int| 0 <= i < v.len() && key(v[i]) == k;
            if i < v.len() - 1 {
                assert(w[i] == v[i]);
            }
        }
    }
}

pub proof fn lemma_assoc_value<K, E, V>(v: Seq<E>, key: spec_fn(E) -> K, val: spec_fn(E) -> V, i: int)
    requires
        distinct_by(v, key),
        0 <= i < v.len(),
    ensures
        assoc(v, key, val).contains_key(key(v[i])),
        assoc(v, key, val)[key(v[i])] == val(v[i]),
    decreases v.len(),
{
    if i < v.len() - 1 {
        let w = v.drop_last();
        assert(w[i] == v[i]);
        assert(distinct_by(w, key)) by {
            assert forall|a: int, b: int| 0 <= a < b < w.len() implies key(w[a]) != key(w[b]) by {
                assert(w[a] == v[a] && w[b] == v[b]);
            }
        }
        lemma_assoc_value(w, key, val, i);
        assert(key(v.last()) != key(v[i]));
    }
}

pub proof fn lemma_assoc_update<K, E, V>(
    v: Seq<E>,
    key: spec_fn(E) -> K,
    val: spec_fn(E) -> V,
    i: int,
    e: E,
)
    requires
        distinct_by(v, key),
        0 <= i < v.len(),
        key(e) == key(v[i]),
    ensures
        assoc(v.update(i, e), key, val) == assoc(v, key, val).insert(key(e), val(e)),
        distinct_by(v.update(i, e), key),
    decreases v.len(),
{
    let u = v.update(i, e);
    assert forall|a: int, b: int| 0 <= a < b < u.len() implies key(u[a]) != key(u[b]) by {
        assert(key(u[a]) == key(v[a]) && key(u[b]) == key(v[b]));
    }
    if i == v.len() - 1 {
        assert(u.drop_last() == v.drop_last());
        assert(assoc(u, key, val) =~= assoc(v, key, val).insert(key(e), val(e)));
    } else {
        let w = v.drop_last();
        assert(distinct_by(w, key)) by {
            assert forall|a: int, b: int| 0 <= a < b < w.len() implies key(w[a]) != key(w[b]) by {
                assert(w[a] == v[a] && w[b] == v[b]);
            }
        }
        assert(u.drop_last() == w.update(i, e));
        lemma_assoc_update(w, key, val, i, e);
        assert(key(v.last()) != key(v[i]));
        assert(assoc(u, key, val) =~= assoc(v, key, val).insert(key(e), val(e)));
    }
}

pub proof fn lemma_assoc_push<K, E, V>(v: Seq<E>, key: spec_fn(E) -> K, val: spec_fn(E) -> V, e: E)
    requires
        distinct_by(v, key),
        !assoc(v, key, val).contains_key(key(e)),
    ensures
        assoc(v.push(e), key, val) == assoc(v, key, val).insert(key(e), val(e)),
        distinct_by(v.push(e), key),
{
    let u = v.push(e);
    assert(u.drop_last() == v);
    lemma_assoc_contains(v, key, val, key(e));
    assert forall|a: int, b: int| 0 <= a < b < u.len() implies key(u[a]) != key(u[b]) by {
        if b == v.len() {
            assert(u[a] == v[a]);
        } else {
            assert(u[a] == v[a] && u[b] == v[b]);
        }
    }
}

} // verus!
