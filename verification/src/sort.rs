use vstd::prelude::*;

use crate::entities::Project;
use crate::predicate::{NumAttr, SpecNumAttr, eval_num_attr, num_attr_view, num_attr_wf,
    spec_num_attr};
use crate::seq_facts::{deref_seq, lemma_filter_is_subset, lemma_filter_singleton};

verus! {

/// The sort key a numeric attribute induces on projects.
pub open spec fn proj_key(a: SpecNumAttr) -> spec_fn(Project) -> int {
    |x: Project| spec_num_attr(a, x)
}

/// Whether `x` may stand (weakly) before `y` in the requested direction.
pub open spec fn key_le<A>(key: spec_fn(A) -> int, desc: bool, x: A, y: A) -> bool {
    if desc {
        key(x) >= key(y)
    } else {
        key(x) <= key(y)
    }
}

/// `s` is ordered by `key` in the requested direction.
pub open spec fn spec_sorted_by<A>(key: spec_fn(A) -> int, desc: bool, s: Seq<A>) -> bool {
    forall|i: int, j: int| 0 <= i < j < s.len() ==> key_le(key, desc, s[i], s[j])
}

/// Inserts `x` in front of the first element it may stand weakly before.
/// The inserted element is always the one that stood earlier in the input,
/// so placing it in front of every equal-key element keeps the input order
/// among ties.
pub open spec fn spec_insert_by<A>(key: spec_fn(A) -> int, desc: bool, x: A, s: Seq<A>) -> Seq<A>
    decreases s.len(),
{
    if s.len() == 0 {
        seq![x]
    } else if key_le(key, desc, x, s[0]) {
        seq![x] + s
    } else {
        seq![s[0]] + spec_insert_by(key, desc, x, s.drop_first())
    }
}

/// Stable sort of `s` by `key`: elements are inserted one at a time,
/// earliest input position first.
pub open spec fn spec_stable_sort<A>(key: spec_fn(A) -> int, desc: bool, s: Seq<A>) -> Seq<A>
    decreases s.len(),
{
    if s.len() == 0 {
        Seq::empty()
    } else {
        spec_insert_by(key, desc, s[0], spec_stable_sort(key, desc, s.drop_first()))
    }
}

/// The predicate selecting the elements whose key is exactly `k`.
pub open spec fn key_eq_pred<A>(key: spec_fn(A) -> int, k: int) -> spec_fn(A) -> bool {
    |a: A| key(a) == k
}

/// The elements of `s` whose key is exactly `k`, in their order in `s`.
pub open spec fn key_filter<A>(key: spec_fn(A) -> int, k: int, s: Seq<A>) -> Seq<A> {
    s.filter(key_eq_pred(key, k))
}

/// The first `n` elements of `s`, or all of `s` when it has fewer.
pub open spec fn spec_top<A>(s: Seq<A>, n: nat) -> Seq<A> {
    if n < s.len() {
        s.subrange(0, n as int)
    } else {
        s
    }
}

proof fn lemma_insert_by_len<A>(key: spec_fn(A) -> int, desc: bool, x: A, s: Seq<A>)
    ensures
        spec_insert_by(key, desc, x, s).len() == s.len() + 1,
    decreases s.len(),
{
    if s.len() == 0 {
    } else if key_le(key, desc, x, s[0]) {
    } else {
        lemma_insert_by_len(key, desc, x, s.drop_first());
    }
}

/// Every element of an insertion result is the inserted element or one of
/// the original sequence.
proof fn lemma_insert_by_elements<A>(key: spec_fn(A) -> int, desc: bool, x: A, s: Seq<A>)
    ensures
        forall|i: int|
            0 <= i < spec_insert_by(key, desc, x, s).len() ==> #[trigger] spec_insert_by(
                key,
                desc,
                x,
                s,
            )[i] == x || s.contains(spec_insert_by(key, desc, x, s)[i]),
    decreases s.len(),
{
    let ins = spec_insert_by(key, desc, x, s);
    if s.len() == 0 {
    } else if key_le(key, desc, x, s[0]) {
        assert forall|i: int| 0 <= i < ins.len() implies #[trigger] ins[i] == x || s.contains(
            ins[i],
        ) by {
            if i > 0 {
                assert(ins[i] == s[i - 1]);
            }
        }
    } else {
        let t = s.drop_first();
        lemma_insert_by_elements(key, desc, x, t);
        let rec = spec_insert_by(key, desc, x, t);
        assert forall|i: int| 0 <= i < ins.len() implies #[trigger] ins[i] == x || s.contains(
            ins[i],
        ) by {
            if i == 0 {
                assert(ins[0] == s[0]);
            } else {
                assert(ins[i] == rec[i - 1]);
                if rec[i - 1] != x {
                    let j = choose|j: int| 0 <= j < t.len() && t[j] == rec[i - 1];
                    assert(s[j + 1] == t[j]);
                }
            }
        }
    }
}

proof fn lemma_insert_by_sorted<A>(key: spec_fn(A) -> int, desc: bool, x: A, s: Seq<A>)
    requires
        spec_sorted_by(key, desc, s),
    ensures
        spec_sorted_by(key, desc, spec_insert_by(key, desc, x, s)),
    decreases s.len(),
{
    let ins = spec_insert_by(key, desc, x, s);
    if s.len() == 0 {
    } else if key_le(key, desc, x, s[0]) {
        assert forall|i: int, j: int| 0 <= i < j < ins.len() implies key_le(
            key,
            desc,
            ins[i],
            ins[j],
        ) by {
            if i == 0 {
                assert(ins[j] == s[j - 1]);
                if j > 1 {
                    assert(key_le(key, desc, s[0], s[j - 1]));
                }
            } else {
                assert(ins[i] == s[i - 1]);
                assert(ins[j] == s[j - 1]);
            }
        }
    } else {
        let t = s.drop_first();
        assert(forall|i: int, j: int|
            0 <= i < j < t.len() ==> key_le(key, desc, #[trigger] t[i], #[trigger] t[j])) by {
            assert forall|i: int, j: int| 0 <= i < j < t.len() implies key_le(
                key,
                desc,
                t[i],
                t[j],
            ) by {
                assert(t[i] == s[i + 1]);
                assert(t[j] == s[j + 1]);
            }
        }
        lemma_insert_by_sorted(key, desc, x, t);
        lemma_insert_by_elements(key, desc, x, t);
        let rec = spec_insert_by(key, desc, x, t);
        assert forall|i: int, j: int| 0 <= i < j < ins.len() implies key_le(
            key,
            desc,
            ins[i],
            ins[j],
        ) by {
            if i == 0 {
                assert(ins[j] == rec[j - 1]);
                if rec[j - 1] == x {
                } else {
                    let m = choose|m: int| 0 <= m < t.len() && t[m] == rec[j - 1];
                    assert(t[m] == s[m + 1]);
                    assert(key_le(key, desc, s[0], s[m + 1]));
                }
            } else {
                assert(ins[i] == rec[i - 1]);
                assert(ins[j] == rec[j - 1]);
            }
        }
    }
}

/// The filter-by-key view of an insertion: the inserted element lands in
/// front of every element sharing its key, and other keys are untouched.
proof fn lemma_insert_by_key_filter<A>(
    key: spec_fn(A) -> int,
    desc: bool,
    x: A,
    s: Seq<A>,
    k: int,
)
    ensures
        key_filter(key, k, spec_insert_by(key, desc, x, s)) == if key(x) == k {
            seq![x] + key_filter(key, k, s)
        } else {
            key_filter(key, k, s)
        },
    decreases s.len(),
{
    broadcast use Seq::filter_distributes_over_add;

    let pred = key_eq_pred(key, k);
    let ins = spec_insert_by(key, desc, x, s);
    lemma_filter_singleton(x, pred);
    if s.len() == 0 {
        assert(seq![x].filter(pred) == ins.filter(pred));
        if key(x) == k {
            assert(seq![x] + Seq::<A>::empty().filter(pred) =~= seq![x]);
        } else {
            assert(Seq::<A>::empty().filter(pred) =~= Seq::<A>::empty());
        }
    } else if key_le(key, desc, x, s[0]) {
        assert(ins == seq![x] + s);
        assert((seq![x] + s).filter(pred) == seq![x].filter(pred) + s.filter(pred));
        if key(x) != k {
            assert(Seq::<A>::empty() + s.filter(pred) =~= s.filter(pred));
        }
    } else {
        let t = s.drop_first();
        lemma_insert_by_key_filter(key, desc, x, t, k);
        lemma_filter_singleton(s[0], pred);
        let rec = spec_insert_by(key, desc, x, t);
        assert(ins == seq![s[0]] + rec);
        assert(ins.filter(pred) == seq![s[0]].filter(pred) + rec.filter(pred));
        assert(s =~= seq![s[0]] + t);
        assert(s.filter(pred) == seq![s[0]].filter(pred) + t.filter(pred));
        if key(x) == k {
            // x stands strictly after s[0] only when their keys differ.
            assert(key(s[0]) != k);
            assert(seq![s[0]].filter(pred) =~= Seq::<A>::empty());
            assert(ins.filter(pred) =~= seq![x] + t.filter(pred));
            assert(s.filter(pred) =~= t.filter(pred));
        } else {
            assert(rec.filter(pred) == t.filter(pred));
        }
    }
}

/// Stable sort law: for every key value, the elements carrying that key
/// appear in the sorted result in exactly their input order.
pub proof fn lemma_stable_sort_key_filter<A>(
    key: spec_fn(A) -> int,
    desc: bool,
    s: Seq<A>,
    k: int,
)
    ensures
        key_filter(key, k, spec_stable_sort(key, desc, s)) == key_filter(key, k, s),
    decreases s.len(),
{
    broadcast use Seq::filter_distributes_over_add;

    let pred = key_eq_pred(key, k);
    if s.len() == 0 {
        assert(Seq::<A>::empty().filter(pred) =~= Seq::<A>::empty());
    } else {
        let t = s.drop_first();
        lemma_stable_sort_key_filter(key, desc, t, k);
        lemma_insert_by_key_filter(key, desc, s[0], spec_stable_sort(key, desc, t), k);
        lemma_filter_singleton(s[0], pred);
        assert(s =~= seq![s[0]] + t);
        assert(s.filter(pred) == seq![s[0]].filter(pred) + t.filter(pred));
        if key(s[0]) == k {
            assert(seq![s[0]] + t.filter(pred) =~= seq![s[0]].filter(pred) + t.filter(pred));
        } else {
            assert(Seq::<A>::empty() + t.filter(pred) =~= t.filter(pred));
        }
    }
}

/// Sorting neither loses nor invents elements.
pub proof fn lemma_stable_sort_len<A>(key: spec_fn(A) -> int, desc: bool, s: Seq<A>)
    ensures
        spec_stable_sort(key, desc, s).len() == s.len(),
    decreases s.len(),
{
    if s.len() == 0 {
    } else {
        lemma_stable_sort_len(key, desc, s.drop_first());
        lemma_insert_by_len(key, desc, s[0], spec_stable_sort(key, desc, s.drop_first()));
    }
}

/// The sorted sequence is ordered by the key.
pub proof fn lemma_stable_sort_sorted<A>(key: spec_fn(A) -> int, desc: bool, s: Seq<A>)
    ensures
        spec_sorted_by(key, desc, spec_stable_sort(key, desc, s)),
    decreases s.len(),
{
    if s.len() == 0 {
    } else {
        lemma_stable_sort_sorted(key, desc, s.drop_first());
        lemma_insert_by_sorted(key, desc, s[0], spec_stable_sort(key, desc, s.drop_first()));
    }
}

/// An element carrying key `k` lies in `s` exactly when it lies in the
/// key-`k` slice of `s`.
proof fn lemma_key_filter_contains<A>(key: spec_fn(A) -> int, k: int, s: Seq<A>, x: A)
    requires
        key(x) == k,
    ensures
        s.contains(x) <==> key_filter(key, k, s).contains(x),
{
    broadcast use Seq::lemma_filter_contains;

    let pred = key_eq_pred(key, k);
    lemma_filter_is_subset(s, pred);
    if s.contains(x) {
        let i = choose|i: int| 0 <= i < s.len() && s[i] == x;
        assert(pred(s[i]));
        assert(s.filter(pred).contains(s[i]));
    }
    if key_filter(key, k, s).contains(x) {
        let i = choose|i: int| 0 <= i < s.filter(pred).len() && s.filter(pred)[i] == x;
        assert(s.contains(s.filter(pred)[i]));
    }
}

/// Sorting keeps exactly the elements of the input.
pub proof fn lemma_stable_sort_same_elements<A>(key: spec_fn(A) -> int, desc: bool, s: Seq<A>)
    ensures
        forall|x: A| s.contains(x) <==> #[trigger] spec_stable_sort(key, desc, s).contains(x),
{
    let t = spec_stable_sort(key, desc, s);
    assert forall|x: A| s.contains(x) <==> #[trigger] t.contains(x) by {
        lemma_stable_sort_key_filter(key, desc, s, key(x));
        lemma_key_filter_contains(key, key(x), s, x);
        lemma_key_filter_contains(key, key(x), t, x);
    }
}

/// Top-k exactness: after a descending stable sort, the first `n` elements
/// are `n` elements of the input whose keys dominate the key of everything
/// left behind; ties stand in their input order by the stability law.
pub proof fn lemma_top_k<A>(key: spec_fn(A) -> int, s: Seq<A>, n: nat)
    ensures
        spec_top(spec_stable_sort(key, true, s), n).len() == if n < s.len() {
            n as int
        } else {
            s.len() as int
        },
        forall|i: int|
            0 <= i < spec_top(spec_stable_sort(key, true, s), n).len() ==> #[trigger] spec_top(
                spec_stable_sort(key, true, s),
                n,
            )[i] == spec_stable_sort(key, true, s)[i],
        forall|i: int, j: int|
            0 <= i < spec_top(spec_stable_sort(key, true, s), n).len() && spec_top(
                spec_stable_sort(key, true, s),
                n,
            ).len() <= j < s.len() ==> key(
                #[trigger] spec_top(spec_stable_sort(key, true, s), n)[i],
            ) >= key(#[trigger] spec_stable_sort(key, true, s)[j]),
        forall|x: A|
            #[trigger] spec_top(spec_stable_sort(key, true, s), n).contains(x) ==> s.contains(x),
{
    let t = spec_stable_sort(key, true, s);
    let r = spec_top(t, n);
    lemma_stable_sort_len(key, true, s);
    lemma_stable_sort_sorted(key, true, s);
    lemma_stable_sort_same_elements(key, true, s);
    assert forall|i: int, j: int| 0 <= i < r.len() && r.len() <= j < s.len() implies key(
        r[i],
    ) >= key(t[j]) by {
        if i < j {
            assert(key_le(key, true, t[i], t[j]));
        } else {
            assert(i == j);
        }
    }
    assert forall|x: A| #[trigger] r.contains(x) implies s.contains(x) by {
        let i = choose|i: int| 0 <= i < r.len() && r[i] == x;
        assert(t[i] == x);
        assert(t.contains(x));
    }
}

/// Whether `x` may stand weakly before `y` under the given attribute and
/// direction.
fn key_le_exec(attr: &NumAttr, desc: bool, x: &Project, y: &Project) -> (r: bool)
    requires
        num_attr_wf(*attr),
    ensures
        r == key_le(proj_key(num_attr_view(*attr)), desc, *x, *y),
{
    let kx = eval_num_attr(attr, x);
    let ky = eval_num_attr(attr, y);
    if desc {
        kx >= ky
    } else {
        kx <= ky
    }
}

fn insert_by_exec<'a>(x: &'a Project, s: Vec<&'a Project>, attr: &NumAttr, desc: bool) -> (r: Vec<
    &'a Project,
>)
    requires
        num_attr_wf(*attr),
    ensures
        deref_seq(r@) == spec_insert_by(proj_key(num_attr_view(*attr)), desc, *x, deref_seq(s@)),
    decreases s@.len(),
{
    let ghost key = proj_key(num_attr_view(*attr));
    let ghost s0 = s@;
    if s.len() == 0 {
        let mut v: Vec<&'a Project> = Vec::new();
        v.push(x);
        proof {
            assert(deref_seq(v@) =~= seq![*x]);
        }
        v
    } else if key_le_exec(attr, desc, x, s[0]) {
        let mut v = s;
        v.insert(0, x);
        proof {
            assert(deref_seq(s0)[0] == *s0[0]);
            assert(deref_seq(v@) =~= seq![*x] + deref_seq(s0));
        }
        v
    } else {
        let mut v = s;
        let first = v.remove(0);
        let rest = insert_by_exec(x, v, attr, desc);
        let mut out = rest;
        out.insert(0, first);
        proof {
            assert(deref_seq(s0)[0] == *s0[0]);
            assert(deref_seq(s0.remove(0)) =~= deref_seq(s0).drop_first());
            assert(deref_seq(out@) =~= seq![*first] + spec_insert_by(
                key,
                desc,
                *x,
                deref_seq(s0).drop_first(),
            ));
        }
        out
    }
}

fn sort_range<'a>(v: &Vec<&'a Project>, i: usize, attr: &NumAttr, desc: bool) -> (r: Vec<
    &'a Project,
>)
    requires
        num_attr_wf(*attr),
        i <= v.len(),
    ensures
        deref_seq(r@) == spec_stable_sort(
            proj_key(num_attr_view(*attr)),
            desc,
            deref_seq(v@).subrange(i as int, v@.len() as int),
        ),
    decreases v@.len() - i,
{
    let ghost key = proj_key(num_attr_view(*attr));
    let ghost ds = deref_seq(v@);
    if i == v.len() {
        let r: Vec<&'a Project> = Vec::new();
        proof {
            assert(ds.subrange(i as int, ds.len() as int) =~= Seq::<Project>::empty());
            assert(deref_seq(r@) =~= Seq::<Project>::empty());
        }
        r
    } else {
        let rest = sort_range(v, i + 1, attr, desc);
        let xi: &'a Project = v[i];
        let r = insert_by_exec(xi, rest, attr, desc);
        proof {
            assert(ds.len() == v@.len());
            let suffix = ds.subrange(i as int, ds.len() as int);
            assert(suffix.drop_first() =~= ds.subrange(i + 1, ds.len() as int));
            assert(suffix[0] == ds[i as int]);
            assert(ds[i as int] == *v@[i as int]);
        }
        r
    }
}

/// Stable sort of a working set by a numeric attribute: ordered by the
/// attribute in the requested direction, ties standing in their input order.
pub fn sort_working_set<'a>(ws: Vec<&'a Project>, attr: &NumAttr, desc: bool) -> (r: Vec<
    &'a Project,
>)
    requires
        num_attr_wf(*attr),
    ensures
        deref_seq(r@) == spec_stable_sort(proj_key(num_attr_view(*attr)), desc, deref_seq(ws@)),
{
    let r = sort_range(&ws, 0, attr, desc);
    proof {
        assert(deref_seq(ws@).subrange(0, deref_seq(ws@).len() as int) =~= deref_seq(ws@));
    }
    r
}

/// The first `n` items of the working set, or all of them when fewer.
pub fn take_top<'a>(ws: Vec<&'a Project>, n: usize) -> (r: Vec<&'a Project>)
    ensures
        deref_seq(r@) == spec_top(deref_seq(ws@), n as nat),
{
    let ghost w0 = ws@;
    let mut v = ws;
    if n < v.len() {
        v.truncate(n);
        proof {
            assert(deref_seq(v@) =~= deref_seq(w0).subrange(0, n as int));
        }
    }
    v
}

} // verus!
