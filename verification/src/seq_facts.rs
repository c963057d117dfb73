use vstd::prelude::*;

verus! {

/// Appending one element extends a filtered sequence by exactly that element
/// when the element satisfies the predicate, and by nothing otherwise.
pub proof fn lemma_filter_push<A>(s: Seq<A>, x: A, pred: spec_fn(A) -> bool)
    ensures
        s.push(x).filter(pred) == if pred(x) {
            s.filter(pred).push(x)
        } else {
            s.filter(pred)
        },
{
    reveal(Seq::filter);
    assert(s.push(x).drop_last() =~= s);
    assert(s.push(x).last() == x);
}

/// Filtering a one-element sequence keeps or drops that single element.
pub proof fn lemma_filter_singleton<A>(x: A, pred: spec_fn(A) -> bool)
    ensures
        seq![x].filter(pred) == if pred(x) {
            seq![x]
        } else {
            Seq::<A>::empty()
        },
{
    reveal(Seq::filter);
    assert(seq![x].drop_last() =~= Seq::<A>::empty());
    assert(seq![x].last() == x);
    if pred(x) {
        assert(Seq::<A>::empty().filter(pred).push(x) =~= seq![x]);
    }
}

/// Dereferencing a sequence of borrows, element by element.
pub open spec fn deref_seq<'a, A>(s: Seq<&'a A>) -> Seq<A> {
    s.map_values(|p: &'a A| *p)
}

/// Every element of a filtered sequence occurs in the sequence it was
/// filtered from.
pub proof fn lemma_filter_is_subset<A>(s: Seq<A>, pred: spec_fn(A) -> bool)
    ensures
        forall|i: int|
            0 <= i < s.filter(pred).len() ==> s.contains(#[trigger] s.filter(pred)[i]),
    decreases s.len(),
{
    reveal(Seq::filter);
    if s.len() == 0 {
    } else {
        let t = s.drop_last();
        lemma_filter_is_subset(t, pred);
        assert(t.push(s.last()) =~= s);
        assert forall|i: int|
            0 <= i < s.filter(pred).len() implies s.contains(#[trigger] s.filter(pred)[i]) by {
            if i < t.filter(pred).len() {
                assert(t.contains(t.filter(pred)[i]));
                let j = choose|j: int| 0 <= j < t.len() && t[j] == t.filter(pred)[i];
                assert(s[j] == t[j]);
            } else {
                assert(s.filter(pred)[i] == s.last());
                assert(s[s.len() - 1] == s.last());
            }
        }
    }
}

/// Filtering leaves a sequence unchanged when every element satisfies the
/// predicate.
pub proof fn lemma_filter_all_true<A>(s: Seq<A>, pred: spec_fn(A) -> bool)
    requires
        forall|i: int| 0 <= i < s.len() ==> pred(#[trigger] s[i]),
    ensures
        s.filter(pred) == s,
    decreases s.len(),
{
    reveal(Seq::filter);
    if s.len() == 0 {
        assert(s.filter(pred) =~= s);
    } else {
        let t = s.drop_last();
        assert(forall|i: int| 0 <= i < t.len() ==> pred(#[trigger] t[i]));
        lemma_filter_all_true(t, pred);
        assert(s.filter(pred) =~= s);
    }
}

/// The conjunction of two predicates.
pub open spec fn and_pred<A>(p: spec_fn(A) -> bool, q: spec_fn(A) -> bool) -> spec_fn(A) -> bool {
    |a: A| p(a) && q(a)
}

/// Two filter passes keep exactly what one pass with the conjoined
/// predicate keeps.
pub proof fn lemma_filter_compose<A>(s: Seq<A>, p: spec_fn(A) -> bool, q: spec_fn(A) -> bool)
    ensures
        s.filter(p).filter(q) == s.filter(and_pred(p, q)),
    decreases s.len(),
{
    reveal(Seq::filter);
    if s.len() == 0 {
        assert(s.filter(p).filter(q) =~= s.filter(and_pred(p, q)));
    } else {
        let t = s.drop_last();
        let x = s.last();
        lemma_filter_compose(t, p, q);
        assert(t.push(x) =~= s);
        lemma_filter_push(t, x, p);
        if p(x) {
            lemma_filter_push(t.filter(p), x, q);
        }
        lemma_filter_push(t, x, and_pred(p, q));
        assert(and_pred(p, q)(x) == (p(x) && q(x)));
    }
}

/// Filtering is idempotent: a second pass with the same predicate keeps
/// everything the first pass kept.
pub proof fn lemma_filter_idempotent<A>(s: Seq<A>, pred: spec_fn(A) -> bool)
    ensures
        s.filter(pred).filter(pred) == s.filter(pred),
{
    broadcast use Seq::lemma_filter_pred;

    lemma_filter_all_true(s.filter(pred), pred);
}

/// Mapping a function over a sequence applies it element by element.
pub proof fn lemma_map_values_index<A, B>(s: Seq<A>, f: spec_fn(A) -> B, j: int)
    requires
        0 <= j < s.len(),
    ensures
        s.map_values(f)[j] == f(s[j]),
{
}

/// Mapping commutes with appending one element.
pub proof fn lemma_map_values_push<A, B>(s: Seq<A>, x: A, f: spec_fn(A) -> B)
    ensures
        s.push(x).map_values(f) == s.map_values(f).push(f(x)),
{
    assert forall|j: int|
        0 <= j < s.push(x).map_values(f).len() implies s.push(x).map_values(f)[j] == s.map_values(
        f,
    ).push(f(x))[j] by {
        lemma_map_values_index(s.push(x), f, j);
        if j < s.len() {
            lemma_map_values_index(s, f, j);
        }
    }
    assert(s.push(x).map_values(f) =~= s.map_values(f).push(f(x)));
}

/// Pushing onto a vector pushes the element's deep view onto the vector's.
pub proof fn lemma_vec_deep_view_push<T: DeepView>(v1: Vec<T>, v2: Vec<T>, x: T)
    requires
        v2@ == v1@.push(x),
    ensures
        v2.deep_view() == v1.deep_view().push(x.deep_view()),
{
    assert forall|j: int|
        0 <= j < v2.deep_view().len() implies v2.deep_view()[j] == v1.deep_view().push(
        x.deep_view(),
    )[j] by {
        assert(v2.deep_view()[j] == v2@[j].deep_view());
        if j < v1@.len() {
            assert(v2@[j] == v1@[j]);
            assert(v1.deep_view()[j] == v1@[j].deep_view());
        } else {
            assert(v2@[j] == x);
        }
    }
    assert(v2.deep_view() =~= v1.deep_view().push(x.deep_view()));
}

/// Concatenating vectors concatenates their deep views.
pub proof fn lemma_vec_deep_view_concat<T: DeepView>(v1: Vec<T>, v2: Vec<T>, v3: Vec<T>)
    requires
        v3@ == v1@ + v2@,
    ensures
        v3.deep_view() == v1.deep_view() + v2.deep_view(),
{
    assert forall|j: int|
        0 <= j < v3.deep_view().len() implies v3.deep_view()[j] == (v1.deep_view()
        + v2.deep_view())[j] by {
        assert(v3.deep_view()[j] == v3@[j].deep_view());
        if j < v1@.len() {
            assert(v3@[j] == v1@[j]);
            assert(v1.deep_view()[j] == v1@[j].deep_view());
        } else {
            assert(v3@[j] == v2@[j - v1@.len()]);
            assert(v2.deep_view()[j - v1@.len()] == v2@[j - v1@.len()].deep_view());
        }
    }
    assert(v3.deep_view() =~= v1.deep_view() + v2.deep_view());
}

} // verus!
