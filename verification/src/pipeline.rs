use vstd::prelude::*;

use crate::entities::{Language, Project};
use crate::predicate::{NumAttr, Pred, SpecNumAttr, SpecPred, eval_pred, num_attr_view,
    num_attr_wf, pred_view, pred_wf, spec_pred_holds};
use crate::seq_facts::{deref_seq, lemma_filter_idempotent, lemma_filter_is_subset,
    lemma_filter_push};
use crate::sort::{proj_key, sort_working_set, spec_stable_sort, spec_top, take_top};
use vstd::seq_lib::lemma_flatten_concat;

verus! {

/// The satisfaction closure a predicate induces on projects.
pub open spec fn holds_pred(p: SpecPred) -> spec_fn(Project) -> bool {
    |x: Project| spec_pred_holds(p, x)
}

/// The projects of `s` satisfying `p`, in their order in `s`.
pub open spec fn spec_filter(p: SpecPred, s: Seq<Project>) -> Seq<Project> {
    s.filter(holds_pred(p))
}

/// Borrows every project of the corpus in corpus order: the initial working
/// set of a pipeline.
pub fn all_refs<'a>(corpus: &'a Vec<Project>) -> (r: Vec<&'a Project>)
    ensures
        deref_seq(r@) == corpus@,
{
    let mut r: Vec<&'a Project> = Vec::new();
    let mut i: usize = 0;
    while i < corpus.len()
        invariant
            i <= corpus.len(),
            r@.len() == i,
            deref_seq(r@) == corpus@.take(i as int),
        decreases corpus.len() - i,
    {
        let ghost r0 = r@;
        let p: &'a Project = vstd::slice::slice_index_get(corpus.as_slice(), i);
        r.push(p);
        proof {
            assert forall|j: int| 0 <= j < r@.len() implies deref_seq(r@)[j] == corpus@.take(
                i + 1,
            )[j] by {
                assert(deref_seq(r@)[j] == *r@[j]);
                if j < i {
                    assert(r@[j] == r0[j]);
                    assert(deref_seq(r0)[j] == *r0[j]);
                } else {
                    assert(r@[j] == p);
                }
            }
            assert(deref_seq(r@) =~= corpus@.take(i + 1));
        }
        i = i + 1;
    }
    proof {
        assert(corpus@.take(corpus@.len() as int) =~= corpus@);
    }
    r
}

/// Narrows the working set to the items satisfying `p`, keeping their order
/// and never re-admitting a discarded item.
pub fn filter_by<'a>(ws: Vec<&'a Project>, p: &Pred) -> (r: Vec<&'a Project>)
    requires
        pred_wf(*p),
    ensures
        deref_seq(r@) == spec_filter(pred_view(*p), deref_seq(ws@)),
{
    let ghost pred = holds_pred(pred_view(*p));
    let ghost dws = deref_seq(ws@);
    let mut r: Vec<&'a Project> = Vec::new();
    let mut i: usize = 0;
    while i < ws.len()
        invariant
            i <= ws.len(),
            pred_wf(*p),
            pred == holds_pred(pred_view(*p)),
            dws == deref_seq(ws@),
            dws.len() == ws@.len(),
            deref_seq(r@) == dws.take(i as int).filter(pred),
        decreases ws.len() - i,
    {
        let x: &'a Project = ws[i];
        proof {
            lemma_filter_push(dws.take(i as int), dws[i as int], pred);
            assert(dws.take(i as int).push(dws[i as int]) =~= dws.take(i + 1));
            assert(dws[i as int] == *ws@[i as int]);
        }
        if eval_pred(p, x) {
            r.push(x);
            proof {
                assert(deref_seq(r@) =~= dws.take(i as int).filter(pred).push(dws[i as int]));
            }
        }
        i = i + 1;
    }
    proof {
        assert(dws.take(dws.len() as int) =~= dws);
    }
    r
}

/// Subset property of filtering: the result is a subset of the input, every
/// kept item satisfies the predicate, and every input item satisfying the
/// predicate is kept — so nothing that was dropped satisfies it.
pub proof fn lemma_filter_by_subset(p: SpecPred, s: Seq<Project>)
    ensures
        spec_filter(p, s).len() <= s.len(),
        forall|i: int|
            0 <= i < spec_filter(p, s).len() ==> s.contains(#[trigger] spec_filter(p, s)[i]),
        forall|i: int|
            0 <= i < spec_filter(p, s).len() ==> spec_pred_holds(
                p,
                #[trigger] spec_filter(p, s)[i],
            ),
        forall|i: int|
            0 <= i < s.len() && spec_pred_holds(p, #[trigger] s[i]) ==> spec_filter(
                p,
                s,
            ).contains(s[i]),
{
    broadcast use Seq::lemma_filter_pred, Seq::lemma_filter_contains, Seq::lemma_filter_len;

    lemma_filter_is_subset(s, holds_pred(p));
}

/// Idempotence of filtering: a second pass with the same predicate changes
/// nothing.
pub proof fn lemma_filter_by_idempotent(p: SpecPred, s: Seq<Project>)
    ensures
        spec_filter(p, spec_filter(p, s)) == spec_filter(p, s),
{
    lemma_filter_idempotent(s, holds_pred(p));
}

/// The order of filter stages is irrelevant to the result: successive
/// filters intersect, whichever is applied first.
pub proof fn lemma_filter_by_commutes(p: SpecPred, q: SpecPred, s: Seq<Project>)
    ensures
        spec_filter(q, spec_filter(p, s)) == spec_filter(p, spec_filter(q, s)),
{
    crate::seq_facts::lemma_filter_compose(s, holds_pred(p), holds_pred(q));
    crate::seq_facts::lemma_filter_compose(s, holds_pred(q), holds_pred(p));
    assert(crate::seq_facts::and_pred(holds_pred(p), holds_pred(q))
        =~= crate::seq_facts::and_pred(holds_pred(q), holds_pred(p)));
}

// ---------------------------------------------------------------------------
// Grouping by primary language.
// ---------------------------------------------------------------------------

/// The predicate selecting the projects whose primary language is `k`.
pub open spec fn lang_eq_pred(k: Language) -> spec_fn(Project) -> bool {
    |x: Project| x.language == k
}

/// The projects of `s` whose primary language is `k`, in their order in `s`.
pub open spec fn lang_filter(s: Seq<Project>, k: Language) -> Seq<Project> {
    s.filter(lang_eq_pred(k))
}

pub open spec fn keys_acc(s: Seq<Project>, acc: Seq<Language>) -> Seq<Language>
    decreases s.len(),
{
    if s.len() == 0 {
        acc
    } else if acc.contains(s[0].language) {
        keys_acc(s.drop_first(), acc)
    } else {
        keys_acc(s.drop_first(), acc.push(s[0].language))
    }
}

/// The distinct primary languages of `s`, each in the order its first
/// carrier appears.
pub open spec fn keys_in_order(s: Seq<Project>) -> Seq<Language> {
    keys_acc(s, Seq::empty())
}

proof fn lemma_keys_acc_push(s: Seq<Project>, acc: Seq<Language>, x: Project)
    ensures
        keys_acc(s.push(x), acc) == if keys_acc(s, acc).contains(x.language) {
            keys_acc(s, acc)
        } else {
            keys_acc(s, acc).push(x.language)
        },
    decreases s.len(),
{
    let sp = s.push(x);
    if s.len() == 0 {
        assert(sp[0] == x);
        assert(sp.drop_first() =~= Seq::<Project>::empty());
        assert(keys_acc(s, acc) == acc);
        if acc.contains(x.language) {
            assert(keys_acc(sp, acc) == keys_acc(sp.drop_first(), acc));
            assert(keys_acc(sp.drop_first(), acc) == acc);
        } else {
            assert(keys_acc(sp, acc) == keys_acc(sp.drop_first(), acc.push(x.language)));
            assert(keys_acc(sp.drop_first(), acc.push(x.language)) == acc.push(x.language));
        }
    } else {
        assert(sp[0] == s[0]);
        assert(sp.drop_first() =~= s.drop_first().push(x));
        if acc.contains(s[0].language) {
            lemma_keys_acc_push(s.drop_first(), acc, x);
            assert(keys_acc(sp, acc) == keys_acc(s.drop_first().push(x), acc));
            assert(keys_acc(s, acc) == keys_acc(s.drop_first(), acc));
        } else {
            lemma_keys_acc_push(s.drop_first(), acc.push(s[0].language), x);
            assert(keys_acc(sp, acc) == keys_acc(
                s.drop_first().push(x),
                acc.push(s[0].language),
            ));
            assert(keys_acc(s, acc) == keys_acc(s.drop_first(), acc.push(s[0].language)));
        }
    }
}

/// A language is among the accumulated keys exactly when it was accumulated
/// before or some project of `s` carries it.
proof fn lemma_keys_acc_contains(s: Seq<Project>, acc: Seq<Language>, l: Language)
    ensures
        keys_acc(s, acc).contains(l) <==> acc.contains(l) || exists|i: int|
            0 <= i < s.len() && #[trigger] s[i].language == l,
    decreases s.len(),
{
    if s.len() == 0 {
    } else {
        let t = s.drop_first();
        if acc.contains(s[0].language) {
            lemma_keys_acc_contains(t, acc, l);
            assert(keys_acc(s, acc) == keys_acc(t, acc));
            assert forall|i: int|
                0 <= i < s.len() && #[trigger] s[i].language == l implies keys_acc(
                s,
                acc,
            ).contains(l) by {
                if i == 0 {
                    assert(acc.contains(l));
                } else {
                    assert(t[i - 1].language == l);
                }
            }
            if keys_acc(s, acc).contains(l) && !acc.contains(l) {
                let w = choose|w: int| 0 <= w < t.len() && #[trigger] t[w].language == l;
                assert(s[w + 1].language == l);
            }
        } else {
            let acc2 = acc.push(s[0].language);
            lemma_keys_acc_contains(t, acc2, l);
            assert(keys_acc(s, acc) == keys_acc(t, acc2));
            if acc.contains(l) {
                let w = choose|w: int| 0 <= w < acc.len() && acc[w] == l;
                assert(acc2[w] == l);
                assert(acc2.contains(l));
            }
            assert forall|i: int|
                0 <= i < s.len() && #[trigger] s[i].language == l implies keys_acc(
                s,
                acc,
            ).contains(l) by {
                if i == 0 {
                    assert(acc2[acc.len() as int] == l);
                    assert(acc2.contains(l));
                } else {
                    assert(t[i - 1].language == l);
                }
            }
            if keys_acc(s, acc).contains(l) && !acc.contains(l) {
                if acc2.contains(l) {
                    let w = choose|w: int| 0 <= w < acc2.len() && acc2[w] == l;
                    if w < acc.len() {
                        assert(acc[w] == acc2[w]);
                        assert(acc.contains(l));
                    }
                    assert(s[0].language == l);
                } else {
                    let w = choose|w: int| 0 <= w < t.len() && #[trigger] t[w].language == l;
                    assert(s[w + 1].language == l);
                }
            }
        }
    }
}

proof fn lemma_keys_acc_no_dup(s: Seq<Project>, acc: Seq<Language>)
    requires
        acc.no_duplicates(),
    ensures
        keys_acc(s, acc).no_duplicates(),
    decreases s.len(),
{
    if s.len() == 0 {
    } else if acc.contains(s[0].language) {
        lemma_keys_acc_no_dup(s.drop_first(), acc);
    } else {
        lemma_keys_acc_no_dup(s.drop_first(), acc.push(s[0].language));
    }
}

/// The distinct keys of a working set carry no duplicate.
pub proof fn lemma_keys_in_order_no_dup(s: Seq<Project>)
    ensures
        keys_in_order(s).no_duplicates(),
{
    lemma_keys_acc_no_dup(s, Seq::empty());
}

/// A working set partitioned into buckets: one bucket per distinct primary
/// language, keys in first-seen order, each bucket in working-set order.
pub struct Grouped<'a> {
    pub keys: Vec<Language>,
    pub buckets: Vec<Vec<&'a Project>>,
}

/// Partitions the working set by primary language. Buckets are accumulated
/// independently and merged deterministically: keys stand in the order their
/// first carrier appears, and each bucket holds exactly the working-set
/// items carrying its key, in working-set order.
pub fn group_by_language<'a>(ws: Vec<&'a Project>) -> (r: Grouped<'a>)
    ensures
        r.keys@ == keys_in_order(deref_seq(ws@)),
        r.buckets@.len() == r.keys@.len(),
        forall|b: int|
            0 <= b < r.keys@.len() ==> deref_seq(#[trigger] r.buckets@[b]@) == lang_filter(
                deref_seq(ws@),
                r.keys@[b],
            ),
{
    let ghost dws = deref_seq(ws@);
    let mut keys: Vec<Language> = Vec::new();
    let mut buckets: Vec<Vec<&'a Project>> = Vec::new();
    let mut i: usize = 0;
    while i < ws.len()
        invariant
            i <= ws.len(),
            dws == deref_seq(ws@),
            dws.len() == ws@.len(),
            keys@ == keys_in_order(dws.take(i as int)),
            buckets@.len() == keys@.len(),
            forall|b: int|
                0 <= b < keys@.len() ==> deref_seq(#[trigger] buckets@[b]@) == lang_filter(
                    dws.take(i as int),
                    keys@[b],
                ),
        decreases ws.len() - i,
    {
        let x: &'a Project = ws[i];
        proof {
            assert(dws[i as int] == *ws@[i as int]);
            assert(dws.take(i as int).push(dws[i as int]) =~= dws.take(i + 1));
            lemma_keys_acc_push(dws.take(i as int), Seq::empty(), dws[i as int]);
        }
        // Find the bucket of x's language, if one exists yet.
        let mut found: Option<usize> = None;
        let mut j: usize = 0;
        while j < keys.len()
            invariant
                j <= keys.len(),
                match found {
                    Some(b) => b < j && keys@[b as int] == x.language,
                    None => !keys@.take(j as int).contains(x.language),
                },
            decreases keys.len() - j,
        {
            proof {
                assert(keys@.take(j as int).push(keys@[j as int]) =~= keys@.take(j + 1));
            }
            if found.is_none() && keys[j] == x.language {
                found = Some(j);
            }
            j = j + 1;
        }
        proof {
            assert(keys@.take(keys@.len() as int) =~= keys@);
            lemma_keys_in_order_no_dup(dws.take(i as int));
        }
        let ghost keys0 = keys@;
        let ghost buckets0 = buckets@;
        match found {
            Some(b) => {
                proof {
                    assert(keys0[b as int] == x.language);
                    assert(keys0.contains(x.language));
                }
                let mut bucket = buckets.remove(b);
                bucket.push(x);
                buckets.insert(b, bucket);
                proof {
                    assert(buckets@ =~= buckets0.update(b as int, buckets@[b as int]));
                    assert forall|c: int| 0 <= c < keys@.len() implies deref_seq(
                        #[trigger] buckets@[c]@,
                    ) == lang_filter(dws.take(i + 1), keys@[c]) by {
                        lemma_filter_push(dws.take(i as int), dws[i as int], lang_eq_pred(keys@[c]));
                        if c == b {
                            assert(deref_seq(buckets@[c]@) =~= deref_seq(buckets0[c]@).push(
                                dws[i as int],
                            ));
                            assert(lang_eq_pred(keys@[c])(dws[i as int]));
                        } else {
                            assert(buckets@[c]@ == buckets0[c]@);
                            // Keys are distinct, so only bucket b carries x's
                            // language.
                            assert(keys@[c] != x.language);
                            assert(!lang_eq_pred(keys@[c])(dws[i as int]));
                        }
                    }
                }
            },
            None => {
                keys.push(x.language);
                let mut bucket: Vec<&'a Project> = Vec::new();
                bucket.push(x);
                buckets.push(bucket);
                proof {
                    lemma_keys_acc_contains(dws.take(i as int), Seq::empty(), x.language);
                    assert forall|c: int| 0 <= c < keys@.len() implies deref_seq(
                        #[trigger] buckets@[c]@,
                    ) == lang_filter(dws.take(i + 1), keys@[c]) by {
                        lemma_filter_push(dws.take(i as int), dws[i as int], lang_eq_pred(keys@[c]));
                        if c < keys0.len() {
                            assert(keys@[c] == keys0[c]);
                            assert(buckets@[c]@ == buckets0[c]@);
                            // x's language is new, so it is no existing key.
                            assert(keys0.contains(keys0[c]));
                            assert(keys@[c] != x.language);
                            assert(!lang_eq_pred(keys@[c])(dws[i as int]));
                        } else {
                            assert(keys@[c] == x.language);
                            assert(buckets@[c]@ == bucket@);
                            assert(deref_seq(bucket@) =~= seq![dws[i as int]]);
                            // No earlier item carries a language outside the
                            // accumulated keys, so the new bucket starts from
                            // an empty slice.
                            let prev = lang_filter(dws.take(i as int), x.language);
                            if prev.len() > 0 {
                                broadcast use Seq::lemma_filter_pred;

                                lemma_filter_is_subset(
                                    dws.take(i as int),
                                    lang_eq_pred(x.language),
                                );
                                assert(lang_eq_pred(x.language)(prev[0]));
                                assert(dws.take(i as int).contains(prev[0]));
                                let w = choose|w: int|
                                    0 <= w < dws.take(i as int).len() && dws.take(i as int)[w]
                                        == prev[0];
                                assert(dws.take(i as int)[w].language == x.language);
                            }
                            assert(prev =~= Seq::<Project>::empty());
                            assert(lang_eq_pred(keys@[c])(dws[i as int]));
                        }
                    }
                }
            },
        }
        i = i + 1;
    }
    proof {
        assert(dws.take(dws.len() as int) =~= dws);
    }
    Grouped { keys, buckets }
}

/// The per-bucket step of the grouped pipeline: sort the bucket of key `k`
/// by the attribute, then keep its first `n` items.
pub open spec fn bucket_top_fn(s: Seq<Project>, a: SpecNumAttr, desc: bool, n: nat) -> spec_fn(
    Language,
) -> Seq<Project> {
    |k: Language| spec_top(spec_stable_sort(proj_key(a), desc, lang_filter(s, k)), n)
}

/// The grouped pipeline: partition by primary language, sort and sample each
/// bucket independently, and concatenate the buckets in first-seen key order.
pub open spec fn spec_grouped_sort_top(s: Seq<Project>, a: SpecNumAttr, desc: bool, n: nat) -> Seq<
    Project,
> {
    keys_in_order(s).map_values(bucket_top_fn(s, a, desc, n)).flatten()
}

/// Groups the working set by primary language, sorts every bucket by `attr`
/// in the requested direction, keeps the first `n` items of each bucket, and
/// flattens the buckets in first-seen key order.
pub fn grouped_sort_top<'a>(ws: Vec<&'a Project>, attr: &NumAttr, desc: bool, n: usize) -> (r: Vec<
    &'a Project,
>)
    requires
        num_attr_wf(*attr),
    ensures
        deref_seq(r@) == spec_grouped_sort_top(deref_seq(ws@), num_attr_view(*attr), desc, n as nat),
{
    let ghost dws = deref_seq(ws@);
    let ghost av = num_attr_view(*attr);
    let ghost f = bucket_top_fn(dws, av, desc, n as nat);
    let g = group_by_language(ws);
    let ghost keys = g.keys@;
    let ghost buckets0 = g.buckets@;
    let mut rem = g.buckets;
    let mut out: Vec<&'a Project> = Vec::new();
    while rem.len() > 0
        invariant
            num_attr_wf(*attr),
            av == num_attr_view(*attr),
            f == bucket_top_fn(dws, av, desc, n as nat),
            keys == keys_in_order(dws),
            buckets0.len() == keys.len(),
            rem@.len() <= buckets0.len(),
            rem@ == buckets0.subrange(buckets0.len() - rem@.len(), buckets0.len() as int),
            forall|b: int|
                0 <= b < keys.len() ==> deref_seq(#[trigger] buckets0[b]@) == lang_filter(
                    dws,
                    keys[b],
                ),
            deref_seq(out@) == keys.take(buckets0.len() - rem@.len()).map_values(f).flatten(),
        decreases rem@.len(),
    {
        let ghost b = buckets0.len() - rem@.len();
        let bucket = rem.remove(0);
        let sorted = sort_working_set(bucket, attr, desc);
        let mut topped = take_top(sorted, n);
        proof {
            assert(bucket@ == buckets0[b]@);
            assert(deref_seq(bucket@) == lang_filter(dws, keys[b]));
            assert(deref_seq(topped@) == f(keys[b]));
        }
        let ghost out_before = deref_seq(out@);
        out.append(&mut topped);
        proof {
            broadcast use Seq::lemma_flatten_push;

            assert(deref_seq(out@) =~= out_before + f(keys[b]));
            assert(keys.take(b + 1).map_values(f) =~= keys.take(b).map_values(f).push(f(keys[b])));
            assert(rem@ =~= buckets0.subrange(buckets0.len() - rem@.len(), buckets0.len() as int));
        }
    }
    proof {
        assert(keys.take(keys.len() as int) =~= keys);
    }
    out
}

/// Every survivor of a per-bucket top keeps the language of its bucket, and
/// a bucket contributes at most `n` survivors.
proof fn lemma_bucket_top_shape(s: Seq<Project>, a: SpecNumAttr, desc: bool, n: nat, k: Language)
    ensures
        bucket_top_fn(s, a, desc, n)(k).len() <= n,
        forall|i: int|
            0 <= i < bucket_top_fn(s, a, desc, n)(k).len() ==> (#[trigger] bucket_top_fn(
                s,
                a,
                desc,
                n,
            )(k)[i]).language == k,
{
    broadcast use Seq::lemma_filter_pred;

    let key = proj_key(a);
    let bucket = lang_filter(s, k);
    let sorted = spec_stable_sort(key, desc, bucket);
    let part = bucket_top_fn(s, a, desc, n)(k);
    crate::sort::lemma_stable_sort_same_elements(key, desc, bucket);
    crate::sort::lemma_stable_sort_len(key, desc, bucket);
    lemma_filter_is_subset(s, lang_eq_pred(k));
    assert forall|i: int| 0 <= i < part.len() implies (#[trigger] part[i]).language == k by {
        assert(part[i] == sorted[i]);
        assert(sorted.contains(sorted[i]));
        assert(bucket.contains(sorted[i]));
        let w = choose|w: int| 0 <= w < bucket.len() && bucket[w] == sorted[i];
        assert(lang_eq_pred(k)(bucket[w]));
    }
}

proof fn lemma_parts_filter(
    keys: Seq<Language>,
    s: Seq<Project>,
    a: SpecNumAttr,
    desc: bool,
    n: nat,
    k: Language,
)
    requires
        keys.no_duplicates(),
    ensures
        lang_filter(keys.map_values(bucket_top_fn(s, a, desc, n)).flatten(), k) == if keys
            .contains(k) {
            bucket_top_fn(s, a, desc, n)(k)
        } else {
            Seq::<Project>::empty()
        },
    decreases keys.len(),
{
    broadcast use Seq::filter_distributes_over_add, Seq::lemma_filter_len, Seq::lemma_filter_pred;

    let f = bucket_top_fn(s, a, desc, n);
    let m = keys.map_values(f);
    if keys.len() == 0 {
        assert(m =~= Seq::<Seq<Project>>::empty());
        assert(m.flatten() =~= Seq::<Project>::empty());
        assert(lang_filter(Seq::<Project>::empty(), k) =~= Seq::<Project>::empty());
    } else {
        let rest = keys.drop_first();
        assert(rest.no_duplicates()) by {
            assert forall|i: int, j: int|
                0 <= i < j < rest.len() implies rest[i] != rest[j] by {
                assert(rest[i] == keys[i + 1]);
                assert(rest[j] == keys[j + 1]);
            }
        }
        lemma_parts_filter(rest, s, a, desc, n, k);
        let part = f(keys[0]);
        let mrest = rest.map_values(f);
        assert(m =~= seq![part] + mrest);
        lemma_flatten_concat(seq![part], mrest);
        seq![part].lemma_flatten_one_element();
        assert(seq![part].flatten() == part);
        assert(m.flatten() == part + mrest.flatten());
        assert(lang_filter(part + mrest.flatten(), k) == lang_filter(part, k) + lang_filter(
            mrest.flatten(),
            k,
        ));
        lemma_bucket_top_shape(s, a, desc, n, keys[0]);
        if keys[0] == k {
            // No later key repeats k, so only the first bucket contributes.
            assert(!rest.contains(k)) by {
                if rest.contains(k) {
                    let w = choose|w: int| 0 <= w < rest.len() && rest[w] == k;
                    assert(keys[w + 1] == keys[0]);
                }
            }
            // Every survivor of the bucket carries its key, so the filter
            // keeps the whole bucket.
            assert forall|i: int| 0 <= i < part.len() implies lang_eq_pred(k)(
                #[trigger] part[i],
            ) by {
                assert(part[i].language == keys[0]);
            }
            crate::seq_facts::lemma_filter_all_true(part, lang_eq_pred(k));
            assert(lang_filter(mrest.flatten(), k) =~= Seq::<Project>::empty());
            assert(lang_filter(part, k) + lang_filter(mrest.flatten(), k) =~= part);
            assert(keys.contains(k)) by {
                assert(keys[0] == k);
            }
            assert(bucket_top_fn(s, a, desc, n)(k) == part);
        } else {
            // The first bucket's survivors all carry its own key, so none
            // carries k.
            assert(lang_filter(part, k) =~= Seq::<Project>::empty()) by {
                lemma_filter_is_subset(part, lang_eq_pred(k));
                if lang_filter(part, k).len() > 0 {
                    let e = lang_filter(part, k)[0];
                    assert(lang_eq_pred(k)(e));
                    assert(part.contains(e));
                    let w = choose|w: int| 0 <= w < part.len() && part[w] == e;
                    assert(part[w].language == keys[0]);
                }
            }
            assert(keys.contains(k) <==> rest.contains(k)) by {
                if keys.contains(k) {
                    let w = choose|w: int| 0 <= w < keys.len() && keys[w] == k;
                    assert(rest[w - 1] == k);
                }
                if rest.contains(k) {
                    let w = choose|w: int| 0 <= w < rest.len() && rest[w] == k;
                    assert(keys[w + 1] == k);
                }
            }
            assert(lang_filter(part, k) + lang_filter(mrest.flatten(), k) =~= lang_filter(
                mrest.flatten(),
                k,
            ));
        }
    }
}

/// The grouped pipeline's survivors of one language are exactly the first
/// `n` of that language's sorted bucket — the complete per-key slice of the
/// output. Together with the top-k law this also gives, per language, that
/// every kept project's key dominates every excluded one's.
pub proof fn lemma_group_local_slice(
    s: Seq<Project>,
    a: SpecNumAttr,
    desc: bool,
    n: nat,
    k: Language,
)
    ensures
        lang_filter(spec_grouped_sort_top(s, a, desc, n), k) == if (exists|i: int|
            0 <= i < s.len() && (#[trigger] s[i]).language == k) {
            spec_top(spec_stable_sort(proj_key(a), desc, lang_filter(s, k)), n)
        } else {
            Seq::<Project>::empty()
        },
{
    lemma_keys_in_order_no_dup(s);
    lemma_keys_acc_contains(s, Seq::empty(), k);
    lemma_parts_filter(keys_in_order(s), s, a, desc, n, k);
    assert(bucket_top_fn(s, a, desc, n)(k) == spec_top(
        spec_stable_sort(proj_key(a), desc, lang_filter(s, k)),
        n,
    ));
}

/// Group-local sampling, exactly: each language occurring in the working
/// set keeps exactly min(`n`, its bucket's size) survivors — the cap
/// applies per distinct key, never across the whole set.
pub proof fn lemma_group_local_top_exact(
    s: Seq<Project>,
    a: SpecNumAttr,
    desc: bool,
    n: nat,
    k: Language,
)
    requires
        exists|i: int| 0 <= i < s.len() && (#[trigger] s[i]).language == k,
    ensures
        lang_filter(spec_grouped_sort_top(s, a, desc, n), k).len() == if n
            <= lang_filter(s, k).len() {
            n as int
        } else {
            lang_filter(s, k).len() as int
        },
{
    lemma_group_local_slice(s, a, desc, n, k);
    crate::sort::lemma_stable_sort_len(proj_key(a), desc, lang_filter(s, k));
}

/// Group-local sampling: grouping by language and then keeping up to `n`
/// items of each sorted bucket leaves at most `n` survivors of any one
/// language — `n` per distinct key, never `n` across the whole set.
pub proof fn lemma_group_local_top(
    s: Seq<Project>,
    a: SpecNumAttr,
    desc: bool,
    n: nat,
    k: Language,
)
    ensures
        lang_filter(spec_grouped_sort_top(s, a, desc, n), k).len() <= n,
{
    lemma_group_local_slice(s, a, desc, n, k);
}

} // verus!

