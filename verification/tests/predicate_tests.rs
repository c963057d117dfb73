use corpus_query::predicate::{CollectionExpr, CommitPred, NumAttr, PathPred, Pred,
    count_commits, eval_commit_pred, eval_pred};
use corpus_query::{Commit, FilePath, Fraction, Language, Matcher, Project, QueryError,
    ratio_at_least};

fn commit(message: &str, authored: i64) -> Commit {
    Commit {
        message: String::from(message),
        author_email: String::from("dev@example.invalid"),
        authored_timestamp: authored,
    }
}

fn path(location: &str, language: Language) -> FilePath {
    FilePath { location: String::from(location), language }
}

fn project_with(paths: Vec<FilePath>, commits: Vec<Commit>) -> Project {
    Project {
        id: 1,
        url: String::from("https://example.invalid/p1"),
        language: Language::Java,
        stars: 0,
        forks: 0,
        size: 0,
        created: 0,
        is_fork: false,
        has_issues: true,
        license: None,
        paths,
        commits,
        users: vec![],
    }
}

#[test]
fn flag_regex_matches_expected_commits() {
    // Messages "fix flag bug", "remove feature toggle", "unrelated": the
    // pattern needs feature/remove before flag/toggle, so only the second
    // message carries a match.
    let m = Matcher::compile("(feature|remove).{0,50}(flag|toggle)").unwrap();
    let commits = vec![
        commit("fix flag bug", 0),
        commit("remove feature toggle", 0),
        commit("unrelated", 0),
    ];
    let results: Vec<bool> = commits
        .iter()
        .map(|c| eval_commit_pred(&CommitPred::MessageMatches(m.duplicate()), c))
        .collect();
    assert_eq!(results, vec![false, true, false]);
    let n = count_commits(&Some(CommitPred::MessageMatches(m)), &commits);
    assert_eq!(n, 1);
}

#[test]
fn regex_search_is_unanchored() {
    let m = Matcher::compile("flag").unwrap();
    assert!(m.is_match("a flag in the middle"));
    assert!(!m.is_match("nothing here"));
}

#[test]
fn malformed_regex_is_a_predicate_error() {
    let r = Matcher::compile("(unclosed");
    match r {
        Err(e) => assert_eq!(e, QueryError::Predicate),
        Ok(_) => panic!("an unclosed group must not compile"),
    }
}

#[test]
fn exact_ratio_boundary_nine_of_ten() {
    let f = Fraction::new(9, 10).unwrap();
    assert!(ratio_at_least(9, 10, &f));
    assert!(!ratio_at_least(8, 10, &f));
}

#[test]
fn ratio_predicate_on_project_paths() {
    let f = Fraction::new(9, 10).unwrap();
    let mut paths: Vec<FilePath> = (0..9).map(|i| path(&format!("src/F{}.java", i), Language::Java)).collect();
    paths.push(path("README.md", Language::HTML));
    let nine_of_ten = project_with(paths, vec![]);
    let pred = Pred::RatioAtLeast(
        CollectionExpr::Paths(Some(PathPred::LanguageEqual(Language::Java))),
        CollectionExpr::Paths(None),
        f,
    );
    assert!(eval_pred(&pred, &nine_of_ten));

    let mut paths: Vec<FilePath> = (0..8).map(|i| path(&format!("src/F{}.java", i), Language::Java)).collect();
    paths.push(path("README.md", Language::HTML));
    paths.push(path("style.css", Language::CSS));
    let eight_of_ten = project_with(paths, vec![]);
    assert!(!eval_pred(&pred, &eight_of_ten));
}

#[test]
fn zero_denominator_ratio_is_zero_not_a_fault() {
    let f = Fraction::new(9, 10).unwrap();
    // A project with no paths: the ratio evaluates to 0 and the predicate
    // simply fails, with no division fault.
    let empty = project_with(vec![], vec![]);
    let pred = Pred::RatioAtLeast(
        CollectionExpr::Paths(Some(PathPred::LanguageEqual(Language::Java))),
        CollectionExpr::Paths(None),
        f,
    );
    assert!(!eval_pred(&pred, &empty));
    // A zero threshold is reached even by the zero ratio.
    let zero = Fraction::new(0, 1).unwrap();
    assert!(ratio_at_least(0, 0, &zero));
    assert!(!ratio_at_least(0, 0, &f));
}

#[test]
fn negative_fraction_operands_are_an_aggregation_error() {
    assert_eq!(Fraction::new(9, -10).unwrap_err(), QueryError::Aggregation);
    assert_eq!(Fraction::new(-9, 10).unwrap_err(), QueryError::Aggregation);
    assert_eq!(Fraction::new(9, 0).unwrap_err(), QueryError::Aggregation);
}

#[test]
fn numeric_bounds_are_inclusive_and_exclusive_as_named() {
    let mut p = project_with(vec![], vec![]);
    p.stars = 50;
    assert!(eval_pred(&Pred::AtLeast(NumAttr::Stars, 50), &p));
    assert!(!eval_pred(&Pred::MoreThan(NumAttr::Stars, 50), &p));
    assert!(eval_pred(&Pred::AtMost(NumAttr::Stars, 50), &p));
    assert!(eval_pred(&Pred::MoreThan(NumAttr::Stars, 49), &p));
}

#[test]
fn logical_connectives() {
    let mut p = project_with(vec![], vec![]);
    p.stars = 10;
    p.is_fork = true;
    assert!(eval_pred(&Pred::And(
        Box::new(Pred::IsFork),
        Box::new(Pred::AtLeast(NumAttr::Stars, 5)),
    ), &p));
    assert!(eval_pred(&Pred::Or(
        Box::new(Pred::AtLeast(NumAttr::Stars, 100)),
        Box::new(Pred::IsFork),
    ), &p));
    assert!(!eval_pred(&Pred::Not(Box::new(Pred::IsFork)), &p));
}

#[test]
fn commit_count_with_timestamp_bound() {
    let commits = vec![commit("a", 100), commit("b", 200), commit("c", 300)];
    let n = count_commits(&Some(CommitPred::AuthoredAtLeast(200)), &commits);
    assert_eq!(n, 2);
    let all = count_commits(&None, &commits);
    assert_eq!(all, 3);
}

#[test]
fn language_member_over_closed_enumeration() {
    let mut p = project_with(vec![], vec![]);
    p.language = Language::Kotlin;
    let langs = vec![Language::Java, Language::Kotlin, Language::Scala];
    assert!(eval_pred(&Pred::LanguageMember(langs.clone()), &p));
    p.language = Language::Cobol;
    assert!(!eval_pred(&Pred::LanguageMember(langs), &p));
}
