use corpus_query::pipeline::{all_refs, filter_by, group_by_language, grouped_sort_top};
use corpus_query::predicate::{NumAttr, Pred};
use corpus_query::sample::random_sample;
use corpus_query::sort::{sort_working_set, take_top};
use corpus_query::{Language, Project};

fn proj(id: u64, language: Language, stars: u64) -> Project {
    Project {
        id,
        url: format!("https://example.invalid/p{}", id),
        language,
        stars,
        forks: 0,
        size: 0,
        created: 0,
        is_fork: false,
        has_issues: false,
        license: None,
        paths: vec![],
        commits: vec![],
        users: vec![],
    }
}

fn ids(ws: &[&Project]) -> Vec<u64> {
    ws.iter().map(|p| p.id).collect()
}

#[test]
fn java_top_two_by_stars() {
    // Five projects: Java, Java, Python, Java, Go with stars 10, 50, 5, 100, 20.
    let corpus = vec![
        proj(1, Language::Java, 10),
        proj(2, Language::Java, 50),
        proj(3, Language::Python, 5),
        proj(4, Language::Java, 100),
        proj(5, Language::Go, 20),
    ];
    let ws = all_refs(&corpus);
    let ws = filter_by(ws, &Pred::LanguageEqual(Language::Java));
    let ws = sort_working_set(ws, &NumAttr::Stars, true);
    let ws = take_top(ws, 2);
    assert_eq!(ids(&ws), vec![4, 2]);
}

#[test]
fn filter_keeps_order_and_subset() {
    let corpus = vec![
        proj(1, Language::Go, 7),
        proj(2, Language::Java, 3),
        proj(3, Language::Go, 9),
        proj(4, Language::Go, 1),
    ];
    let ws = all_refs(&corpus);
    let kept = filter_by(ws, &Pred::LanguageEqual(Language::Go));
    assert_eq!(ids(&kept), vec![1, 3, 4]);
    for p in &kept {
        assert_eq!(p.language, Language::Go);
    }
}

#[test]
fn filter_is_idempotent() {
    let corpus = vec![
        proj(1, Language::Go, 7),
        proj(2, Language::Java, 3),
        proj(3, Language::Go, 9),
    ];
    let ws = all_refs(&corpus);
    let once = filter_by(ws, &Pred::AtLeast(NumAttr::Stars, 5));
    let twice = filter_by(once.clone(), &Pred::AtLeast(NumAttr::Stars, 5));
    assert_eq!(ids(&once), ids(&twice));
}

#[test]
fn sort_is_stable_on_equal_keys() {
    let corpus = vec![
        proj(1, Language::Java, 50),
        proj(2, Language::Java, 80),
        proj(3, Language::Java, 50),
        proj(4, Language::Java, 50),
        proj(5, Language::Java, 90),
    ];
    let ws = all_refs(&corpus);
    let sorted = sort_working_set(ws, &NumAttr::Stars, true);
    // Equal keys 50 keep their input order 1, 3, 4.
    assert_eq!(ids(&sorted), vec![5, 2, 1, 3, 4]);
}

#[test]
fn top_more_than_len_returns_all() {
    let corpus = vec![proj(1, Language::Java, 1), proj(2, Language::Java, 2)];
    let ws = all_refs(&corpus);
    let ws = take_top(ws, 10);
    assert_eq!(ids(&ws), vec![1, 2]);
}

#[test]
fn sampling_same_seed_same_output() {
    let corpus: Vec<Project> = (0..20).map(|i| proj(i, Language::Java, i)).collect();
    let a = random_sample(all_refs(&corpus), 5, 42);
    let b = random_sample(all_refs(&corpus), 5, 42);
    assert_eq!(ids(&a), ids(&b));
    assert_eq!(a.len(), 5);
}

#[test]
fn sampling_different_seeds_differ() {
    let corpus: Vec<Project> = (0..20).map(|i| proj(i, Language::Java, i)).collect();
    let a = random_sample(all_refs(&corpus), 5, 1);
    let b = random_sample(all_refs(&corpus), 5, 2);
    assert_ne!(ids(&a), ids(&b));
}

#[test]
fn sampling_n_at_least_len_is_identity() {
    let corpus: Vec<Project> = (0..4).map(|i| proj(i, Language::Java, i)).collect();
    let a = random_sample(all_refs(&corpus), 100, 7);
    assert_eq!(ids(&a), vec![0, 1, 2, 3]);
}

#[test]
fn sampling_draws_subset_without_replacement() {
    let corpus: Vec<Project> = (0..10).map(|i| proj(i, Language::Java, i)).collect();
    let a = random_sample(all_refs(&corpus), 6, 3);
    let mut seen = ids(&a);
    assert_eq!(seen.len(), 6);
    seen.sort();
    seen.dedup();
    assert_eq!(seen.len(), 6);
    for id in seen {
        assert!(id < 10);
    }
}

#[test]
fn group_by_keeps_first_seen_key_order() {
    let corpus = vec![
        proj(1, Language::Go, 1),
        proj(2, Language::Java, 2),
        proj(3, Language::Go, 3),
        proj(4, Language::Python, 4),
        proj(5, Language::Java, 5),
    ];
    let g = group_by_language(all_refs(&corpus));
    assert_eq!(g.keys, vec![Language::Go, Language::Java, Language::Python]);
    assert_eq!(ids(&g.buckets[0]), vec![1, 3]);
    assert_eq!(ids(&g.buckets[1]), vec![2, 5]);
    assert_eq!(ids(&g.buckets[2]), vec![4]);
}

#[test]
fn grouped_top_takes_n_per_key_not_total() {
    let corpus = vec![
        proj(1, Language::Go, 10),
        proj(2, Language::Java, 20),
        proj(3, Language::Go, 30),
        proj(4, Language::Java, 40),
        proj(5, Language::Go, 50),
    ];
    // One per distinct language: the most starred of each, languages in
    // first-seen order.
    let ws = grouped_sort_top(all_refs(&corpus), &NumAttr::Stars, true, 1);
    assert_eq!(ids(&ws), vec![5, 4]);
}

#[test]
fn grouped_top_keeps_min_of_cap_and_bucket_size() {
    // Three Go projects and two Java ones, capped at two per language: each
    // language keeps min(2, bucket size) survivors.
    let corpus = vec![
        proj(1, Language::Go, 10),
        proj(2, Language::Java, 20),
        proj(3, Language::Go, 30),
        proj(4, Language::Java, 40),
        proj(5, Language::Go, 50),
    ];
    let ws = grouped_sort_top(all_refs(&corpus), &NumAttr::Stars, true, 2);
    let go: Vec<u64> = ws.iter().filter(|p| p.language == Language::Go).map(|p| p.id).collect();
    let java: Vec<u64> =
        ws.iter().filter(|p| p.language == Language::Java).map(|p| p.id).collect();
    assert_eq!(go, vec![5, 3]);
    assert_eq!(java, vec![4, 2]);
    assert_eq!(ws.len(), 4);
}

#[test]
fn grouped_sort_top_flattens_buckets_in_key_order() {
    let corpus = vec![
        proj(1, Language::Go, 10),
        proj(2, Language::Java, 20),
        proj(3, Language::Go, 30),
        proj(4, Language::Java, 40),
    ];
    let ws = grouped_sort_top(all_refs(&corpus), &NumAttr::Stars, true, 10);
    assert_eq!(ids(&ws), vec![3, 1, 4, 2]);
}
