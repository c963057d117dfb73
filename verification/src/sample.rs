use vstd::prelude::*;

use crate::entities::Project;
use crate::seq_facts::deref_seq;
use vstd::multiset::Multiset;

verus! {

/// One step of the 64-bit xorshift generator.
pub open spec fn spec_next_state(x: u64) -> u64 {
    let a = x ^ (x << 13u64);
    let b = a ^ (a >> 7u64);
    b ^ (b << 17u64)
}

/// The state a seed starts from. The all-zero state is a fixed point of the
/// generator, so a zero seed is displaced to a fixed odd constant.
pub open spec fn spec_init_state(seed: u64) -> u64 {
    if seed == 0 {
        0x9e3779b97f4a7c15u64
    } else {
        seed
    }
}

fn next_state(x: u64) -> (r: u64)
    ensures
        r == spec_next_state(x),
{
    let a = x ^ (x << 13u64);
    let b = a ^ (a >> 7u64);
    b ^ (b << 17u64)
}

fn init_state(seed: u64) -> (r: u64)
    ensures
        r == spec_init_state(seed),
{
    if seed == 0 {
        0x9e3779b97f4a7c15u64
    } else {
        seed
    }
}

/// The seeded draw of `k` items without replacement: each step advances the
/// generator and removes the indexed item from the remaining pool.
pub open spec fn spec_draw(s: Seq<Project>, k: nat, st: u64) -> Seq<Project>
    decreases k,
{
    if k == 0 || s.len() == 0 {
        Seq::empty()
    } else {
        let st2 = spec_next_state(st);
        let j = st2 as int % s.len() as int;
        seq![s[j]] + spec_draw(s.remove(j), (k - 1) as nat, st2)
    }
}

/// Seeded random sampling over the working set's canonical order: when `n`
/// covers the whole set, the set itself in that order; otherwise the
/// deterministic seeded draw of `n` items without replacement.
pub open spec fn spec_random_sample(s: Seq<Project>, n: nat, seed: u64) -> Seq<Project> {
    if n >= s.len() {
        s
    } else {
        spec_draw(s, n, spec_init_state(seed))
    }
}

fn draw<'a>(s: Vec<&'a Project>, k: usize, st: u64) -> (r: Vec<&'a Project>)
    ensures
        deref_seq(r@) == spec_draw(deref_seq(s@), k as nat, st),
    decreases k,
{
    let ghost s0 = deref_seq(s@);
    if k == 0 || s.len() == 0 {
        let r: Vec<&'a Project> = Vec::new();
        proof {
            assert(deref_seq(r@) =~= Seq::<Project>::empty());
        }
        r
    } else {
        let st2 = next_state(st);
        let j: usize = (st2 % (s.len() as u64)) as usize;
        let mut s = s;
        let x = s.remove(j);
        let rest = draw(s, k - 1, st2);
        let mut out = rest;
        out.insert(0, x);
        proof {
            assert(j as int == st2 as int % s0.len() as int);
            assert(*x == s0[j as int]);
            assert(deref_seq(s@) =~= s0.remove(j as int));
            assert(deref_seq(out@) =~= seq![s0[j as int]] + spec_draw(
                s0.remove(j as int),
                (k - 1) as nat,
                st2,
            ));
        }
        out
    }
}

/// Draws `n` items from the working set without replacement, using the
/// seeded generator over the set's canonical order. With `n` at least the
/// set's size the whole set is returned unchanged, never an error.
pub fn random_sample<'a>(ws: Vec<&'a Project>, n: usize, seed: u64) -> (r: Vec<&'a Project>)
    ensures
        deref_seq(r@) == spec_random_sample(deref_seq(ws@), n as nat, seed),
{
    if n >= ws.len() {
        ws
    } else {
        let st = init_state(seed);
        draw(ws, n, st)
    }
}

/// Sampling determinism: the seeded draw is a function of the working set,
/// the requested size and the seed alone, so two draws from the same inputs
/// agree element for element, in the same order.
pub proof fn lemma_sampling_deterministic(s1: Seq<Project>, s2: Seq<Project>, n: nat, seed: u64)
    requires
        s1 == s2,
    ensures
        spec_random_sample(s1, n, seed) == spec_random_sample(s2, n, seed),
{
}

proof fn lemma_draw_shape(s: Seq<Project>, k: nat, st: u64)
    ensures
        spec_draw(s, k, st).len() == if k <= s.len() {
            k as int
        } else {
            s.len() as int
        },
        forall|x: Project| #[trigger] spec_draw(s, k, st).contains(x) ==> s.contains(x),
    decreases k,
{
    if k == 0 || s.len() == 0 {
    } else {
        let st2 = spec_next_state(st);
        let j = st2 as int % s.len() as int;
        let rest = s.remove(j);
        lemma_draw_shape(rest, (k - 1) as nat, st2);
        let d = spec_draw(s, k, st);
        assert forall|x: Project| #[trigger] d.contains(x) implies s.contains(x) by {
            let w = choose|w: int| 0 <= w < d.len() && d[w] == x;
            if w == 0 {
                assert(s[j] == x);
            } else {
                assert(spec_draw(rest, (k - 1) as nat, st2).contains(x)) by {
                    assert(spec_draw(rest, (k - 1) as nat, st2)[w - 1] == x);
                }
                let v = choose|v: int| 0 <= v < rest.len() && rest[v] == x;
                if v < j {
                    assert(s[v] == x);
                } else {
                    assert(s[v + 1] == x);
                }
            }
        }
    }
}

/// The seeded draw is without replacement: no item is drawn more often than
/// the pool holds it.
proof fn lemma_draw_without_replacement(s: Seq<Project>, k: nat, st: u64)
    ensures
        forall|x: Project|
            #[trigger] spec_draw(s, k, st).to_multiset().count(x) <= s.to_multiset().count(x),
    decreases k,
{
    broadcast use vstd::seq_lib::group_to_multiset_ensures;

    if k == 0 || s.len() == 0 {
    } else {
        let st2 = spec_next_state(st);
        let j = st2 as int % s.len() as int;
        let rest = s.remove(j);
        lemma_draw_without_replacement(rest, (k - 1) as nat, st2);
        let d = spec_draw(s, k, st);
        assert(d =~= seq![s[j]] + spec_draw(rest, (k - 1) as nat, st2));
        vstd::seq_lib::lemma_multiset_commutative(seq![s[j]], spec_draw(rest, (k - 1) as nat, st2));
        assert(seq![s[j]] =~= Seq::<Project>::empty().push(s[j]));
        assert forall|x: Project| #[trigger] d.to_multiset().count(x) <= s.to_multiset().count(
            x,
        ) by {
            assert(rest.to_multiset() =~= s.to_multiset().remove(s[j]));
            assert(seq![s[j]].to_multiset() =~= Multiset::<Project>::empty().insert(s[j]));
            assert(d.to_multiset().count(x) == seq![s[j]].to_multiset().count(x) + spec_draw(
                rest,
                (k - 1) as nat,
                st2,
            ).to_multiset().count(x));
        }
    }
}

/// Random sampling never repeats an item: the sample's multiset is bounded
/// by the working set's.
pub proof fn lemma_random_sample_without_replacement(s: Seq<Project>, n: nat, seed: u64)
    ensures
        forall|x: Project|
            #[trigger] spec_random_sample(s, n, seed).to_multiset().count(x)
                <= s.to_multiset().count(x),
{
    if n >= s.len() {
    } else {
        lemma_draw_without_replacement(s, n, spec_init_state(seed));
    }
}

/// A sample is a subset of the working set of exactly the promised size.
pub proof fn lemma_random_sample_shape(s: Seq<Project>, n: nat, seed: u64)
    ensures
        spec_random_sample(s, n, seed).len() == if n <= s.len() {
            n as int
        } else {
            s.len() as int
        },
        forall|x: Project| #[trigger] spec_random_sample(s, n, seed).contains(x) ==> s.contains(x),
{
    if n >= s.len() {
    } else {
        lemma_draw_shape(s, n, spec_init_state(seed));
    }
}

} // verus!
