use corpus_query::render::{bool_to_string, i64_to_string, u64_to_string};
use corpus_query::time::month_start_timestamp;
use corpus_query::{Commit, FilePath, Language, Project, User, language_name};

fn sample_project(id: u64, language: Language, stars: u64) -> Project {
    Project {
        id,
        url: format!("https://example.invalid/p{}", id),
        language,
        stars,
        forks: 2,
        size: 7,
        created: 1300000000,
        is_fork: false,
        has_issues: true,
        license: Some(String::from("MIT")),
        paths: vec![],
        commits: vec![],
        users: vec![],
    }
}

#[test]
fn decimal_rendering_of_unsigned() {
    assert_eq!(u64_to_string(0), "0");
    assert_eq!(u64_to_string(7), "7");
    assert_eq!(u64_to_string(1234567890), "1234567890");
    assert_eq!(u64_to_string(u64::MAX), "18446744073709551615");
}

#[test]
fn decimal_rendering_of_signed() {
    assert_eq!(i64_to_string(0), "0");
    assert_eq!(i64_to_string(-42), "-42");
    assert_eq!(i64_to_string(i64::MIN), "-9223372036854775808");
    assert_eq!(i64_to_string(1293840000), "1293840000");
}

#[test]
fn boolean_and_language_rendering() {
    assert_eq!(bool_to_string(true), "true");
    assert_eq!(bool_to_string(false), "false");
    assert_eq!(language_name(Language::Cpp), "C++");
    assert_eq!(language_name(Language::ObjectiveC), "Objective-C");
    assert_eq!(language_name(Language::Java), "Java");
}

#[test]
fn month_start_timestamps_match_utc_calendar() {
    assert_eq!(month_start_timestamp(1970, 1), 0);
    assert_eq!(month_start_timestamp(2011, 1), 1293840000);
    assert_eq!(month_start_timestamp(2015, 7), 1435708800);
    assert_eq!(month_start_timestamp(2018, 3), 1519862400);
    assert_eq!(month_start_timestamp(2018, 8), 1533081600);
    assert_eq!(month_start_timestamp(2021, 3), 1614556800);
    // A leap February is covered: March 2020 starts 29 days after February.
    assert_eq!(
        month_start_timestamp(2020, 3) - month_start_timestamp(2020, 2),
        29 * 86400
    );
}

#[test]
fn query2_selects_starred_java_non_forks() {
    let mut corpus = vec![
        sample_project(1, Language::Java, 100),
        sample_project(2, Language::Java, 10),
        sample_project(3, Language::Python, 500),
        sample_project(4, Language::Java, 75),
    ];
    corpus[3].is_fork = true;
    let t = corpus_query::query2(&corpus);
    assert_eq!(t.header, vec!["stars", "url", "license"]);
    assert_eq!(t.rows.len(), 1);
    assert_eq!(t.rows[0], vec!["100", "https://example.invalid/p1", "MIT"]);
}

#[test]
fn query8_is_the_identity_pipeline() {
    let corpus = vec![sample_project(9, Language::Go, 3)];
    let t = corpus_query::query8(&corpus);
    assert_eq!(
        t.header,
        vec![
            "id",
            "url",
            "language",
            "stars",
            "forks",
            "size",
            "created",
            "is_fork",
            "has_issues",
            "license"
        ]
    );
    assert_eq!(t.rows.len(), 1);
    assert_eq!(
        t.rows[0],
        vec![
            "9",
            "https://example.invalid/p9",
            "Go",
            "3",
            "2",
            "7",
            "1300000000",
            "false",
            "true",
            "MIT"
        ]
    );
    let empty: Vec<Project> = vec![];
    let t = corpus_query::query8(&empty);
    assert_eq!(t.rows.len(), 0);
}

#[test]
fn query4_expands_one_row_per_matching_commit() {
    let mut p = sample_project(1, Language::Java, 5);
    p.commits = vec![
        Commit {
            message: String::from("remove stale feature flag"),
            author_email: String::from("a@example.invalid"),
            authored_timestamp: 1,
        },
        Commit {
            message: String::from("unrelated"),
            author_email: String::from("a@example.invalid"),
            authored_timestamp: 2,
        },
    ];
    // Ten matching commits are required; give it ten more.
    for i in 0..10 {
        p.commits.push(Commit {
            message: format!("cleanup toggle {}", i),
            author_email: String::from("a@example.invalid"),
            authored_timestamp: 3 + i,
        });
    }
    let corpus = vec![p, sample_project(2, Language::Java, 5)];
    let t = corpus_query::query4(&corpus).unwrap();
    assert_eq!(t.header, vec!["url", "commit_message"]);
    // Project 2 has no matching commits and is filtered out; project 1
    // expands to one row per matching message, "unrelated" excluded.
    assert_eq!(t.rows.len(), 11);
    assert_eq!(
        t.rows[0],
        vec!["https://example.invalid/p1", "remove stale feature flag"]
    );
    for row in &t.rows {
        assert_ne!(row[1], "unrelated");
    }
}

#[test]
fn query5_lists_bot_emails_per_project() {
    let mut p = sample_project(1, Language::Go, 0);
    p.users = vec![
        User {
            email: String::from("build-bot-1@ci.example.invalid"),
            name: String::from("Build Bot"),
        },
        User { email: String::from("human@example.invalid"), name: String::from("Human") },
    ];
    let corpus = vec![p];
    let t = corpus_query::query5(&corpus).unwrap();
    assert_eq!(t.header, vec!["url", "user_email"]);
    assert_eq!(t.rows.len(), 1);
    assert_eq!(
        t.rows[0],
        vec!["https://example.invalid/p1", "build-bot-1@ci.example.invalid"]
    );
}

#[test]
fn query9_requires_nine_tenths_java_paths() {
    let mut nine = sample_project(1, Language::Java, 0);
    for i in 0..9 {
        nine.paths.push(FilePath {
            location: format!("src/F{}.java", i),
            language: Language::Java,
        });
    }
    nine.paths.push(FilePath { location: String::from("README.md"), language: Language::HTML });
    let mut eight = sample_project(2, Language::Java, 0);
    for i in 0..8 {
        eight.paths.push(FilePath {
            location: format!("src/F{}.java", i),
            language: Language::Java,
        });
    }
    eight.paths.push(FilePath { location: String::from("README.md"), language: Language::HTML });
    eight.paths.push(FilePath { location: String::from("style.css"), language: Language::CSS });
    let no_paths = sample_project(3, Language::Java, 0);
    let corpus = vec![nine, eight, no_paths];
    let t = corpus_query::query9(&corpus);
    assert_eq!(t.rows.len(), 1);
    assert_eq!(t.rows[0][0], "1");
}

#[test]
fn query1_groups_then_takes_top_per_language() {
    let mut corpus = vec![
        sample_project(1, Language::Go, 10),
        sample_project(2, Language::Java, 20),
        sample_project(3, Language::Go, 30),
    ];
    for p in corpus.iter_mut() {
        p.paths = vec![FilePath { location: String::from("main.txt"), language: p.language }];
    }
    let t = corpus_query::query1(&corpus);
    assert_eq!(t.header, vec!["stars", "url", "path_location"]);
    // Go bucket sorted 30, 10; then Java.
    assert_eq!(t.rows.len(), 3);
    assert_eq!(t.rows[0][0], "30");
    assert_eq!(t.rows[1][0], "10");
    assert_eq!(t.rows[2][0], "20");
}

#[test]
fn query3_filters_by_creation_and_sorts() {
    let mut old_project = sample_project(1, Language::Java, 500);
    old_project.created = month_start_timestamp(2009, 5);
    let mut newer_low = sample_project(2, Language::Java, 10);
    newer_low.created = month_start_timestamp(2012, 5);
    let mut newer_high = sample_project(3, Language::Java, 90);
    newer_high.created = month_start_timestamp(2013, 5);
    let corpus = vec![old_project, newer_low, newer_high];
    let t = corpus_query::query3(&corpus);
    assert_eq!(t.header, vec!["url", "stars"]);
    assert_eq!(t.rows.len(), 2);
    assert_eq!(t.rows[0][1], "90");
    assert_eq!(t.rows[1][1], "10");
}

#[test]
fn query7_returns_all_when_sample_exceeds_size() {
    let mut fork = sample_project(2, Language::Java, 0);
    fork.is_fork = true;
    let mut empty = sample_project(3, Language::Java, 0);
    empty.size = 0;
    let mut keeper = sample_project(1, Language::Java, 0);
    keeper.size = 5;
    empty.size = 0;
    let corpus = vec![keeper, fork, empty];
    let t = corpus_query::query7(&corpus);
    assert_eq!(t.header, vec!["url", "size"]);
    assert_eq!(t.rows.len(), 1);
    assert_eq!(t.rows[0], vec!["https://example.invalid/p1", "5"]);
}

#[test]
fn query14_keeps_projects_with_a_readme() {
    let mut with_readme = sample_project(1, Language::Python, 0);
    with_readme.paths = vec![
        FilePath { location: String::from("src/a.py"), language: Language::Python },
        FilePath { location: String::from("README.md"), language: Language::HTML },
    ];
    let mut without = sample_project(2, Language::Python, 0);
    without.paths = vec![FilePath {
        location: String::from("src/b.py"),
        language: Language::Python,
    }];
    let corpus = vec![with_readme, without];
    let t = corpus_query::query14(&corpus).unwrap();
    assert_eq!(t.header, vec!["url", "path_location"]);
    assert_eq!(t.rows.len(), 1);
    assert_eq!(t.rows[0], vec!["https://example.invalid/p1", "README.md"]);
}

#[test]
fn query15_bounds_creation_between_months() {
    let mut inside = sample_project(1, Language::Java, 200);
    inside.created = month_start_timestamp(2016, 6);
    for i in 0..101 {
        inside.commits.push(Commit {
            message: format!("c{}", i),
            author_email: String::from("a@example.invalid"),
            authored_timestamp: i,
        });
    }
    let mut too_early = sample_project(2, Language::Java, 200);
    too_early.created = month_start_timestamp(2014, 6);
    too_early.commits = inside.commits.clone();
    let corpus = vec![inside, too_early];
    let t = corpus_query::query15(&corpus);
    assert_eq!(t.rows.len(), 1);
    assert_eq!(t.rows[0][0], "1");
}
