use vstd::prelude::*;

verus! {

/// Flattening a sequence with one more element appends that element's contents.
pub proof fn lemma_flatten_push<A>(s: Seq<Seq<A>>, x: Seq<A>)
    ensures
        s.push(x).flatten() == s.flatten() + x,
    decreases s.len(),
{
    if s.len() == 0 {
        assert(s.push(x).drop_first() == Seq::<Seq<A>>::empty());
        assert(s.push(x).flatten() == x + Seq::<Seq<A>>::empty().flatten());
        assert(x + Seq::<A>::empty() == x);
        assert(Seq::<A>::empty() + x == x);
    } else {
        let t = s.drop_first();
        assert(s.push(x).drop_first() == t.push(x));
        lemma_flatten_push(t, x);
        assert(s.push(x).first() == s.first());
        assert(s.push(x).flatten() == s.first() + t.push(x).flatten());
        assert(s.first() + (t.flatten() + x) == (s.first() + t.flatten()) + x);
    }
}

/// `flat_map` over a sequence extended by one element.
pub proof fn lemma_flat_map_push<A, B>(s: Seq<A>, f: spec_fn(A) -> Seq<B>, x: A)
    ensures
        s.push(x).flat_map(f) == s.flat_map(f) + f(x),
{
    assert(s.push(x).map_values(f) == s.map_values(f).push(f(x)));
    lemma_flatten_push(s.map_values(f), f(x));
}

/// `flat_map` over the empty sequence.
pub proof fn lemma_flat_map_empty<A, B>(f: spec_fn(A) -> Seq<B>)
    ensures
        Seq::<A>::empty().flat_map(f) == Seq::<B>::empty(),
{
    assert(Seq::<A>::empty().map_values(f) == Seq::<Seq<B>>::empty());
}

/// `flat_map` over a prefix extended by the next element.
pub proof fn lemma_flat_map_take<A, B>(s: Seq<A>, f: spec_fn(A) -> Seq<B>, i: int)
    requires
        0 <= i < s.len(),
    ensures
        s.take(i + 1).flat_map(f) == s.take(i).flat_map(f) + f(s[i]),
{
    assert(s.take(i + 1) == s.take(i).push(s[i]));
    lemma_flat_map_push(s.take(i), f, s[i]);
}

/// `filter` over a prefix extended by the next element.
pub proof fn lemma_filter_take<A>(s: Seq<A>, p: spec_fn(A) -> bool, i: int)
    requires
        0 <= i < s.len(),
    ensures
        s.take(i + 1).filter(p) == (if p(s[i]) {
            s.take(i).filter(p).push(s[i])
        } else {
            s.take(i).filter(p)
        }),
{
    reveal(Seq::filter);
    assert(s.take(i + 1).drop_last() == s.take(i));
    assert(s.take(i + 1).last() == s[i]);
}

/// Whether every element of a sequence satisfies a predicate.
pub open spec fn all_of<A>(s: Seq<A>, p: spec_fn(A) -> bool) -> bool {
    forall|i: int| 0 <= i < s.len() ==> #[trigger] p(s[i])
}

/// Two sequences whose elements all satisfy a predicate, one after the other.
pub proof fn lemma_all_of_concat<A>(a: Seq<A>, b: Seq<A>, p: spec_fn(A) -> bool)
    requires
        all_of(a, p),
        all_of(b, p),
    ensures
        all_of(a + b, p),
{
    assert forall|i: int| 0 <= i < (a + b).len() implies #[trigger] p((a + b)[i]) by {
        if i < a.len() {
            assert((a + b)[i] == a[i]);
        } else {
            assert((a + b)[i] == b[i - a.len()]);
        }
    }
}

/// A `map_values` whose function only gives values that satisfy a predicate.
pub proof fn lemma_all_of_map_values<A, B>(s: Seq<A>, f: spec_fn(A) -> B, p: spec_fn(B) -> bool)
    requires
        forall|x: A| #[trigger] p(f(x)),
    ensures
        all_of(s.map_values(f), p),
{
    assert forall|i: int| 0 <= i < s.map_values(f).len() implies #[trigger] p(s.map_values(f)[i]) by {
        assert(s.map_values(f)[i] == f(s[i]));
    }
}

/// A `flat_map` whose function only gives sequences whose elements satisfy a predicate.
pub proof fn lemma_all_of_flat_map<A, B>(s: Seq<A>, f: spec_fn(A) -> Seq<B>, p: spec_fn(B) -> bool)
    requires
        forall|x: A| all_of(#[trigger] f(x), p),
    ensures
        all_of(s.flat_map(f), p),
    decreases s.len(),
{
    if s.len() == 0 {
        lemma_flat_map_empty(f);
        assert(s == Seq::<A>::empty());
    } else {
        let t = s.drop_last();
        lemma_all_of_flat_map(t, f, p);
        assert(s == t.push(s.last()));
        lemma_flat_map_push(t, f, s.last());
        assert(all_of(f(s.last()), p));
        lemma_all_of_concat(t.flat_map(f), f(s.last()), p);
    }
}

/// What one of two sequences holds, the two one after the other hold.
pub proof fn lemma_concat_contains<A>(a: Seq<A>, b: Seq<A>, x: A)
    requires
        a.contains(x) || b.contains(x),
    ensures
        (a + b).contains(x),
{
    if a.contains(x) {
        let i = choose|i: int| 0 <= i < a.len() && a[i] == x;
        assert((a + b)[i] == x);
    } else {
        let i = choose|i: int| 0 <= i < b.len() && b[i] == x;
        assert((a + b)[a.len() + i] == x);
    }
}

/// A `flat_map` holds each element of each image.
pub proof fn lemma_flat_map_contains<A, B>(s: Seq<A>, f: spec_fn(A) -> Seq<B>, k: int, j: int)
    requires
        0 <= k < s.len(),
        0 <= j < f(s[k]).len(),
    ensures
        s.flat_map(f).contains(f(s[k])[j]),
    decreases s.len(),
{
    let t = s.drop_last();
    assert(s == t.push(s.last()));
    lemma_flat_map_push(t, f, s.last());
    if k < s.len() - 1 {
        assert(t[k] == s[k]);
        lemma_flat_map_contains(t, f, k, j);
        lemma_concat_contains(t.flat_map(f), f(s.last()), f(s[k])[j]);
    } else {
        assert(f(s.last())[j] == f(s[k])[j]);
        lemma_concat_contains(t.flat_map(f), f(s.last()), f(s[k])[j]);
    }
}

/// A `flat_map` over the elements a predicate keeps holds each element of the image of each
/// element the predicate keeps.
pub proof fn lemma_filter_flat_map_contains<A, B>(
    s: Seq<A>,
    p: spec_fn(A) -> bool,
    f: spec_fn(A) -> Seq<B>,
    k: int,
    j: int,
)
    requires
        0 <= k < s.len(),
        p(s[k]),
        0 <= j < f(s[k]).len(),
    ensures
        s.filter(p).flat_map(f).contains(f(s[k])[j]),
{
    s.lemma_filter_contains(p, k);
    let i = choose|i: int| 0 <= i < s.filter(p).len() && s.filter(p)[i] == s[k];
    lemma_flat_map_contains(s.filter(p), f, i, j);
}

} // verus!
