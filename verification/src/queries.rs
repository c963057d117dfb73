use vstd::prelude::*;

use crate::entities::{Language, Project};
use crate::error::QueryError;
use crate::matcher::{Matcher, regex_compiles};
use crate::pipeline::{all_refs, filter_by, grouped_sort_top, spec_filter, spec_grouped_sort_top};
use crate::predicate::{CollectionExpr, CommitPred, NumAttr, PathPred, Pred, SpecCollectionExpr,
    SpecCommitPred, SpecNumAttr, SpecPathPred, SpecPred, SpecUserPred, UserPred};
use crate::render::{Column, NestedColumn, Selection, SpecNestedColumn, SpecSelection, Table,
    default_selection, make_table, spec_default_selection, spec_header, spec_rows};
use crate::sample::{random_sample, spec_random_sample};
use crate::seq_facts::deref_seq;
use crate::sort::{proj_key, sort_working_set, spec_stable_sort, spec_top, take_top};
use crate::time::{month_start_timestamp, spec_month_start_seconds};
use crate::fraction::Fraction;

verus! {

// Each query is one pipeline over the corpus's project collection: filters,
// an optional group/sort/sample, and a projection into output records. The
// contract of each pins the whole table to a ghost composition of the stage
// semantics.

pub open spec fn spec_not_fork() -> SpecPred {
    SpecPred::Not(Box::new(SpecPred::IsFork))
}

fn not_fork() -> (r: Pred)
    ensures
        crate::predicate::pred_view(r) == spec_not_fork(),
        crate::predicate::pred_wf(r),
{
    let r = Pred::Not(Box::new(Pred::IsFork));
    proof {
        assert(crate::predicate::pred_view(Pred::IsFork) == SpecPred::IsFork);
        assert(crate::predicate::pred_wf(Pred::IsFork));
    }
    r
}

// ---------------------------------------------------------------------------
// Query 1: artifact survey. Many languages, no forks, grouped by language,
// the 1020 most starred per language, rendered as stars, URL and one row per
// file path.
// ---------------------------------------------------------------------------

pub open spec fn query1_languages() -> Seq<Language> {
    seq![
        Language::ASM,
        Language::C,
        Language::Cobol,
        Language::Cpp,
        Language::CSharp,
        Language::D,
        Language::Erlang,
        Language::Fortran,
        Language::FSharp,
        Language::Go,
        Language::Groovy,
        Language::Java,
        Language::JavaScript,
        Language::Kotlin,
        Language::Lua,
        Language::ObjectiveC,
        Language::OCaml,
        Language::Perl,
        Language::PHP,
        Language::Python,
        Language::Ruby,
        Language::Scala,
        Language::Swift,
    ]
}

pub open spec fn query1_selection() -> SpecSelection {
    SpecSelection {
        before: seq![Column::Stars, Column::Url],
        nested: Some(SpecNestedColumn::PathLocationsIf(None)),
        after: Seq::empty(),
    }
}

pub open spec fn spec_query1(corpus: Seq<Project>) -> Seq<Seq<Seq<char>>> {
    let s1 = spec_filter(SpecPred::LanguageMember(query1_languages()), corpus);
    let s2 = spec_filter(spec_not_fork(), s1);
    let s3 = spec_grouped_sort_top(s2, SpecNumAttr::Stars, true, 1020);
    spec_rows(query1_selection(), s3)
}

pub fn query1(corpus: &Vec<Project>) -> (r: Table)
    ensures
        r.header.deep_view() == spec_header(query1_selection()),
        r.rows.deep_view() == spec_query1(corpus@),
{
    let langs = vec![
        Language::ASM,
        Language::C,
        Language::Cobol,
        Language::Cpp,
        Language::CSharp,
        Language::D,
        Language::Erlang,
        Language::Fortran,
        Language::FSharp,
        Language::Go,
        Language::Groovy,
        Language::Java,
        Language::JavaScript,
        Language::Kotlin,
        Language::Lua,
        Language::ObjectiveC,
        Language::OCaml,
        Language::Perl,
        Language::PHP,
        Language::Python,
        Language::Ruby,
        Language::Scala,
        Language::Swift,
    ];
    proof {
        assert(langs@ =~= query1_languages());
    }
    let ws = all_refs(corpus);
    let ws = filter_by(ws, &Pred::LanguageMember(langs));
    let ws = filter_by(ws, &not_fork());
    let ws = grouped_sort_top(ws, &NumAttr::Stars, true, 1020);
    let sel = Selection {
        before: vec![Column::Stars, Column::Url],
        nested: Some(NestedColumn::PathLocationsIf(None)),
        after: Vec::new(),
    };
    proof {
        assert(crate::render::selection_view(sel) =~~= query1_selection());
    }
    make_table(&sel, &ws)
}

// ---------------------------------------------------------------------------
// Query 2: license study. Java, no forks, at least 50 stars; stars, URL and
// license per project.
// ---------------------------------------------------------------------------

pub open spec fn query2_selection() -> SpecSelection {
    SpecSelection {
        before: seq![Column::Stars, Column::Url, Column::License],
        nested: None,
        after: Seq::empty(),
    }
}

pub open spec fn spec_query2(corpus: Seq<Project>) -> Seq<Seq<Seq<char>>> {
    let s1 = spec_filter(SpecPred::LanguageEqual(Language::Java), corpus);
    let s2 = spec_filter(spec_not_fork(), s1);
    let s3 = spec_filter(SpecPred::AtLeast(SpecNumAttr::Stars, 50), s2);
    spec_rows(query2_selection(), s3)
}

pub fn query2(corpus: &Vec<Project>) -> (r: Table)
    ensures
        r.header.deep_view() == spec_header(query2_selection()),
        r.rows.deep_view() == spec_query2(corpus@),
{
    let ws = all_refs(corpus);
    let ws = filter_by(ws, &Pred::LanguageEqual(Language::Java));
    let ws = filter_by(ws, &not_fork());
    let ws = filter_by(ws, &Pred::AtLeast(NumAttr::Stars, 50));
    let sel = Selection {
        before: vec![Column::Stars, Column::Url, Column::License],
        nested: None,
        after: Vec::new(),
    };
    proof {
        assert(crate::render::selection_view(sel) =~~= query2_selection());
    }
    make_table(&sel, &ws)
}

// ---------------------------------------------------------------------------
// Query 3: method chaining. Java, no forks, created since 2011, the 1000
// most starred; URL and stars per project.
// ---------------------------------------------------------------------------

pub open spec fn query3_selection() -> SpecSelection {
    SpecSelection { before: seq![Column::Url, Column::Stars], nested: None, after: Seq::empty() }
}

pub open spec fn spec_query3(corpus: Seq<Project>) -> Seq<Seq<Seq<char>>> {
    let s1 = spec_filter(SpecPred::LanguageEqual(Language::Java), corpus);
    let s2 = spec_filter(spec_not_fork(), s1);
    let s3 = spec_filter(
        SpecPred::AtLeast(SpecNumAttr::Created, spec_month_start_seconds(2011, 1)),
        s2,
    );
    let s4 = spec_top(spec_stable_sort(proj_key(SpecNumAttr::Stars), true, s3), 1000);
    spec_rows(query3_selection(), s4)
}

pub fn query3(corpus: &Vec<Project>) -> (r: Table)
    ensures
        r.header.deep_view() == spec_header(query3_selection()),
        r.rows.deep_view() == spec_query3(corpus@),
{
    let ws = all_refs(corpus);
    let ws = filter_by(ws, &Pred::LanguageEqual(Language::Java));
    let ws = filter_by(ws, &not_fork());
    let since = month_start_timestamp(2011, 1);
    let ws = filter_by(ws, &Pred::AtLeast(NumAttr::Created, since));
    let ws = sort_working_set(ws, &NumAttr::Stars, true);
    let ws = take_top(ws, 1000);
    let sel = Selection {
        before: vec![Column::Url, Column::Stars],
        nested: None,
        after: Vec::new(),
    };
    proof {
        assert(crate::render::selection_view(sel) =~~= query3_selection());
    }
    make_table(&sel, &ws)
}

// ---------------------------------------------------------------------------
// Query 4: feature flags. Java, no forks, at least 10 commits whose message
// matches the flag pattern, sorted by that count; URL and one row per
// matching commit message.
// ---------------------------------------------------------------------------

pub open spec fn query4_count(pat: Seq<char>) -> SpecNumAttr {
    SpecNumAttr::Count(
        SpecCollectionExpr::Commits(Some(SpecCommitPred::MessageMatches(pat))),
    )
}

pub open spec fn query4_selection(pat: Seq<char>) -> SpecSelection {
    SpecSelection {
        before: seq![Column::Url],
        nested: Some(
            SpecNestedColumn::CommitMessagesIf(Some(SpecCommitPred::MessageMatches(pat))),
        ),
        after: Seq::empty(),
    }
}

pub open spec fn spec_query4(corpus: Seq<Project>, pat: Seq<char>) -> Seq<Seq<Seq<char>>> {
    let s1 = spec_filter(SpecPred::LanguageEqual(Language::Java), corpus);
    let s2 = spec_filter(spec_not_fork(), s1);
    let s3 = spec_filter(SpecPred::AtLeast(query4_count(pat), 10), s2);
    let s4 = spec_stable_sort(proj_key(query4_count(pat)), true, s3);
    spec_rows(query4_selection(pat), s4)
}

pub fn query4(corpus: &Vec<Project>) -> (r: Result<Table, QueryError>)
    ensures
        r is Ok <==> regex_compiles("(feature|remove|delete|cleanup).{0,50}(flag|toggle)"@),
        r is Ok ==> r->Ok_0.header.deep_view() == spec_header(
            query4_selection("(feature|remove|delete|cleanup).{0,50}(flag|toggle)"@),
        ),
        r is Ok ==> r->Ok_0.rows.deep_view() == spec_query4(
            corpus@,
            "(feature|remove|delete|cleanup).{0,50}(flag|toggle)"@,
        ),
        r is Err ==> r->Err_0 == QueryError::Predicate,
{
    let flag_regex = match Matcher::compile("(feature|remove|delete|cleanup).{0,50}(flag|toggle)") {
        Ok(m) => m,
        Err(e) => {
            return Err(e);
        },
    };
    let ghost pat = flag_regex.pattern_view();
    let ws = all_refs(corpus);
    let ws = filter_by(ws, &Pred::LanguageEqual(Language::Java));
    let ws = filter_by(ws, &not_fork());
    let count_attr = NumAttr::Count(
        CollectionExpr::Commits(Some(CommitPred::MessageMatches(flag_regex.duplicate()))),
    );
    let ws = filter_by(ws, &Pred::AtLeast(
        NumAttr::Count(
            CollectionExpr::Commits(Some(CommitPred::MessageMatches(flag_regex.duplicate()))),
        ),
        10,
    ));
    let ws = sort_working_set(ws, &count_attr, true);
    let sel = Selection {
        before: vec![Column::Url],
        nested: Some(
            NestedColumn::CommitMessagesIf(Some(CommitPred::MessageMatches(flag_regex))),
        ),
        after: Vec::new(),
    };
    proof {
        assert(crate::render::selection_view(sel) =~~= query4_selection(pat));
    }
    Ok(make_table(&sel, &ws))
}

// ---------------------------------------------------------------------------
// Query 5: bot committers. Every project; URL and one row per user whose
// email matches the bot pattern.
// ---------------------------------------------------------------------------

pub open spec fn query5_selection(pat: Seq<char>) -> SpecSelection {
    SpecSelection {
        before: seq![Column::Url],
        nested: Some(SpecNestedColumn::UserEmailsIf(Some(SpecUserPred::EmailMatches(pat)))),
        after: Seq::empty(),
    }
}

pub open spec fn spec_query5(corpus: Seq<Project>, pat: Seq<char>) -> Seq<Seq<Seq<char>>> {
    spec_rows(query5_selection(pat), corpus)
}

pub fn query5(corpus: &Vec<Project>) -> (r: Result<Table, QueryError>)
    ensures
        r is Ok <==> regex_compiles(".*(bot).*@.*"@),
        r is Ok ==> r->Ok_0.header.deep_view() == spec_header(query5_selection(".*(bot).*@.*"@)),
        r is Ok ==> r->Ok_0.rows.deep_view() == spec_query5(corpus@, ".*(bot).*@.*"@),
        r is Err ==> r->Err_0 == QueryError::Predicate,
{
    let email_regex = match Matcher::compile(".*(bot).*@.*") {
        Ok(m) => m,
        Err(e) => {
            return Err(e);
        },
    };
    let ghost pat = email_regex.pattern_view();
    let ws = all_refs(corpus);
    let sel = Selection {
        before: vec![Column::Url],
        nested: Some(NestedColumn::UserEmailsIf(Some(UserPred::EmailMatches(email_regex)))),
        after: Vec::new(),
    };
    proof {
        assert(crate::render::selection_view(sel) =~~= query5_selection(pat));
    }
    Ok(make_table(&sel, &ws))
}

// ---------------------------------------------------------------------------
// Query 6: code smell prioritization. Java projects with recent activity,
// at least 1000 commits, 20 committers and 500 Java files; a seeded random
// draw of 9, then sorted by Java file count; URL and size per project.
// ---------------------------------------------------------------------------

pub open spec fn query6_java_paths() -> SpecNumAttr {
    SpecNumAttr::Count(
        SpecCollectionExpr::Paths(Some(SpecPathPred::LanguageEqual(Language::Java))),
    )
}

pub open spec fn query6_selection() -> SpecSelection {
    SpecSelection { before: seq![Column::Url, Column::Size], nested: None, after: Seq::empty() }
}

pub open spec fn spec_query6(corpus: Seq<Project>, now: int) -> Seq<Seq<Seq<char>>> {
    let s1 = spec_filter(SpecPred::LanguageEqual(Language::Java), corpus);
    let s2 = spec_filter(
        SpecPred::AtLeast(
            SpecNumAttr::Count(
                SpecCollectionExpr::Commits(
                    Some(SpecCommitPred::AuthoredAtLeast(now - 145152000)),
                ),
            ),
            1,
        ),
        s1,
    );
    let s3 = spec_filter(
        SpecPred::AtLeast(SpecNumAttr::Count(SpecCollectionExpr::Commits(None)), 1000),
        s2,
    );
    let s4 = spec_filter(
        SpecPred::AtLeast(SpecNumAttr::Count(SpecCollectionExpr::Users(None)), 20),
        s3,
    );
    let s5 = spec_filter(SpecPred::AtLeast(query6_java_paths(), 500), s4);
    let s6 = spec_random_sample(s5, 9, 1);
    let s7 = spec_stable_sort(proj_key(query6_java_paths()), true, s6);
    spec_rows(query6_selection(), s7)
}

/// `now` is the invoking clock's current Unix timestamp; the five-year
/// activity window is measured back from it.
pub fn query6(corpus: &Vec<Project>, now: i64) -> (r: Table)
    requires
        now as int - 145152000 >= i64::MIN,
    ensures
        r.header.deep_view() == spec_header(query6_selection()),
        r.rows.deep_view() == spec_query6(corpus@, now as int),
{
    let five_years_ago: i64 = now - 145152000;
    let ws = all_refs(corpus);
    let ws = filter_by(ws, &Pred::LanguageEqual(Language::Java));
    let ws = filter_by(ws, &Pred::AtLeast(
        NumAttr::Count(
            CollectionExpr::Commits(Some(CommitPred::AuthoredAtLeast(five_years_ago))),
        ),
        1,
    ));
    let ws = filter_by(ws, &Pred::AtLeast(NumAttr::Count(CollectionExpr::Commits(None)), 1000));
    let ws = filter_by(ws, &Pred::AtLeast(NumAttr::Count(CollectionExpr::Users(None)), 20));
    let java_paths = NumAttr::Count(
        CollectionExpr::Paths(Some(PathPred::LanguageEqual(Language::Java))),
    );
    let ws = filter_by(ws, &Pred::AtLeast(
        NumAttr::Count(CollectionExpr::Paths(Some(PathPred::LanguageEqual(Language::Java)))),
        500,
    ));
    let ws = random_sample(ws, 9, 1);
    let ws = sort_working_set(ws, &java_paths, true);
    let sel = Selection {
        before: vec![Column::Url, Column::Size],
        nested: None,
        after: Vec::new(),
    };
    proof {
        assert(crate::render::selection_view(sel) =~~= query6_selection());
    }
    make_table(&sel, &ws)
}

// ---------------------------------------------------------------------------
// Query 7: token testing. Java, no forks, non-empty; a seeded random draw of
// 100000; URL and size per project.
// ---------------------------------------------------------------------------

pub open spec fn query7_selection() -> SpecSelection {
    SpecSelection { before: seq![Column::Url, Column::Size], nested: None, after: Seq::empty() }
}

pub open spec fn spec_query7(corpus: Seq<Project>) -> Seq<Seq<Seq<char>>> {
    let s1 = spec_filter(SpecPred::LanguageEqual(Language::Java), corpus);
    let s2 = spec_filter(spec_not_fork(), s1);
    let s3 = spec_filter(SpecPred::MoreThan(SpecNumAttr::Size, 0), s2);
    let s4 = spec_random_sample(s3, 100000, 1);
    spec_rows(query7_selection(), s4)
}

pub fn query7(corpus: &Vec<Project>) -> (r: Table)
    ensures
        r.header.deep_view() == spec_header(query7_selection()),
        r.rows.deep_view() == spec_query7(corpus@),
{
    let ws = all_refs(corpus);
    let ws = filter_by(ws, &Pred::LanguageEqual(Language::Java));
    let ws = filter_by(ws, &not_fork());
    let ws = filter_by(ws, &Pred::MoreThan(NumAttr::Size, 0));
    let ws = random_sample(ws, 100000, 1);
    let sel = Selection {
        before: vec![Column::Url, Column::Size],
        nested: None,
        after: Vec::new(),
    };
    proof {
        assert(crate::render::selection_view(sel) =~~= query7_selection());
    }
    make_table(&sel, &ws)
}

// ---------------------------------------------------------------------------
// Query 8: fork identification. The identity pipeline: every corpus entry,
// rendered whole.
// ---------------------------------------------------------------------------

pub open spec fn spec_query8(corpus: Seq<Project>) -> Seq<Seq<Seq<char>>> {
    spec_rows(spec_default_selection(), corpus)
}

pub fn query8(corpus: &Vec<Project>) -> (r: Table)
    ensures
        r.header.deep_view() == spec_header(spec_default_selection()),
        r.rows.deep_view() == spec_query8(corpus@),
{
    let ws = all_refs(corpus);
    let sel = default_selection();
    make_table(&sel, &ws)
}

// ---------------------------------------------------------------------------
// Query 9: composite refactorings. No forks, an issue tracker, and at least
// 9/10 of the paths in Java — by exact ratio, so a project with exactly 9 of
// 10 qualifies.
// ---------------------------------------------------------------------------

pub open spec fn spec_query9(corpus: Seq<Project>) -> Seq<Seq<Seq<char>>> {
    let s1 = spec_filter(spec_not_fork(), corpus);
    let s2 = spec_filter(SpecPred::HasIssues, s1);
    let s3 = spec_filter(
        SpecPred::RatioAtLeast(
            SpecCollectionExpr::Paths(Some(SpecPathPred::LanguageEqual(Language::Java))),
            SpecCollectionExpr::Paths(None),
            Fraction { num: 9, den: 10 },
        ),
        s2,
    );
    spec_rows(spec_default_selection(), s3)
}

pub fn query9(corpus: &Vec<Project>) -> (r: Table)
    ensures
        r.header.deep_view() == spec_header(spec_default_selection()),
        r.rows.deep_view() == spec_query9(corpus@),
{
    let ws = all_refs(corpus);
    let ws = filter_by(ws, &not_fork());
    let ws = filter_by(ws, &Pred::HasIssues);
    let nine_tenths = match Fraction::new(9, 10) {
        Ok(f) => f,
        Err(_) => {
            proof {
                assert(false);
            }
            Fraction { num: 9, den: 10 }
        },
    };
    let ws = filter_by(ws, &Pred::RatioAtLeast(
        CollectionExpr::Paths(Some(PathPred::LanguageEqual(Language::Java))),
        CollectionExpr::Paths(None),
        nine_tenths,
    ));
    let sel = default_selection();
    make_table(&sel, &ws)
}

// ---------------------------------------------------------------------------
// Query 10: ML comparison set. No forks, non-empty, popular (5 stars or 5
// forks), active within a year; a seeded random draw of 10000, then sorted
// by stars.
// ---------------------------------------------------------------------------

pub open spec fn spec_query10(corpus: Seq<Project>, now: int) -> Seq<Seq<Seq<char>>> {
    let s1 = spec_filter(spec_not_fork(), corpus);
    let s2 = spec_filter(SpecPred::MoreThan(SpecNumAttr::Size, 0), s1);
    let s3 = spec_filter(
        SpecPred::Or(
            Box::new(SpecPred::AtLeast(SpecNumAttr::Stars, 5)),
            Box::new(SpecPred::AtLeast(SpecNumAttr::Forks, 5)),
        ),
        s2,
    );
    let s4 = spec_filter(
        SpecPred::AtLeast(
            SpecNumAttr::Count(
                SpecCollectionExpr::Commits(Some(SpecCommitPred::AuthoredAtLeast(now - 29030400))),
            ),
            1,
        ),
        s3,
    );
    let s5 = spec_random_sample(s4, 10000, 1);
    let s6 = spec_stable_sort(proj_key(SpecNumAttr::Stars), true, s5);
    spec_rows(spec_default_selection(), s6)
}

/// `now` is the invoking clock's current Unix timestamp; the one-year
/// activity window is measured back from it.
pub fn query10(corpus: &Vec<Project>, now: i64) -> (r: Table)
    requires
        now as int - 29030400 >= i64::MIN,
    ensures
        r.header.deep_view() == spec_header(spec_default_selection()),
        r.rows.deep_view() == spec_query10(corpus@, now as int),
{
    let one_year_ago: i64 = now - 29030400;
    let ws = all_refs(corpus);
    let ws = filter_by(ws, &not_fork());
    let ws = filter_by(ws, &Pred::MoreThan(NumAttr::Size, 0));
    let popular = Pred::Or(
        Box::new(Pred::AtLeast(NumAttr::Stars, 5)),
        Box::new(Pred::AtLeast(NumAttr::Forks, 5)),
    );
    proof {
        assert(crate::predicate::pred_view(Pred::AtLeast(NumAttr::Stars, 5))
            == SpecPred::AtLeast(SpecNumAttr::Stars, 5));
        assert(crate::predicate::pred_view(Pred::AtLeast(NumAttr::Forks, 5))
            == SpecPred::AtLeast(SpecNumAttr::Forks, 5));
        assert(crate::predicate::pred_wf(Pred::AtLeast(NumAttr::Stars, 5)));
        assert(crate::predicate::pred_wf(Pred::AtLeast(NumAttr::Forks, 5)));
        assert(crate::predicate::pred_wf(popular));
    }
    let ws = filter_by(ws, &popular);
    let ws = filter_by(ws, &Pred::AtLeast(
        NumAttr::Count(CollectionExpr::Commits(Some(CommitPred::AuthoredAtLeast(one_year_ago)))),
        1,
    ));
    let ws = random_sample(ws, 10000, 1);
    let ws = sort_working_set(ws, &NumAttr::Stars, true);
    let sel = default_selection();
    make_table(&sel, &ws)
}

// ---------------------------------------------------------------------------
// Query 11: anomaly detection. No forks, created by March 2018.
// ---------------------------------------------------------------------------

pub open spec fn spec_query11(corpus: Seq<Project>) -> Seq<Seq<Seq<char>>> {
    let s1 = spec_filter(spec_not_fork(), corpus);
    let s2 = spec_filter(
        SpecPred::AtMost(SpecNumAttr::Created, spec_month_start_seconds(2018, 3)),
        s1,
    );
    spec_rows(spec_default_selection(), s2)
}

pub fn query11(corpus: &Vec<Project>) -> (r: Table)
    ensures
        r.header.deep_view() == spec_header(spec_default_selection()),
        r.rows.deep_view() == spec_query11(corpus@),
{
    let ws = all_refs(corpus);
    let ws = filter_by(ws, &not_fork());
    let until = month_start_timestamp(2018, 3);
    let ws = filter_by(ws, &Pred::AtMost(NumAttr::Created, until));
    let sel = default_selection();
    make_table(&sel, &ws)
}

// ---------------------------------------------------------------------------
// Query 12: import embeddings. Six languages, at least 2 stars, no forks.
// ---------------------------------------------------------------------------

pub open spec fn query12_languages() -> Seq<Language> {
    seq![
        Language::Java,
        Language::JavaScript,
        Language::Python,
        Language::Ruby,
        Language::PHP,
        Language::CSharp,
    ]
}

pub open spec fn spec_query12(corpus: Seq<Project>) -> Seq<Seq<Seq<char>>> {
    let s1 = spec_filter(SpecPred::LanguageMember(query12_languages()), corpus);
    let s2 = spec_filter(SpecPred::AtLeast(SpecNumAttr::Stars, 2), s1);
    let s3 = spec_filter(spec_not_fork(), s2);
    spec_rows(spec_default_selection(), s3)
}

pub fn query12(corpus: &Vec<Project>) -> (r: Table)
    ensures
        r.header.deep_view() == spec_header(spec_default_selection()),
        r.rows.deep_view() == spec_query12(corpus@),
{
    let langs = vec![
        Language::Java,
        Language::JavaScript,
        Language::Python,
        Language::Ruby,
        Language::PHP,
        Language::CSharp,
    ];
    proof {
        assert(langs@ =~= query12_languages());
    }
    let ws = all_refs(corpus);
    let ws = filter_by(ws, &Pred::LanguageMember(langs));
    let ws = filter_by(ws, &Pred::AtLeast(NumAttr::Stars, 2));
    let ws = filter_by(ws, &not_fork());
    let sel = default_selection();
    make_table(&sel, &ws)
}

// ---------------------------------------------------------------------------
// Query 13: identifier embeddings. Six languages, no forks, at least 100
// stars, sorted by stars.
// ---------------------------------------------------------------------------

pub open spec fn query13_languages() -> Seq<Language> {
    seq![
        Language::Java,
        Language::Python,
        Language::PHP,
        Language::CSharp,
        Language::C,
        Language::Cpp,
    ]
}

pub open spec fn spec_query13(corpus: Seq<Project>) -> Seq<Seq<Seq<char>>> {
    let s1 = spec_filter(SpecPred::LanguageMember(query13_languages()), corpus);
    let s2 = spec_filter(spec_not_fork(), s1);
    let s3 = spec_filter(SpecPred::AtLeast(SpecNumAttr::Stars, 100), s2);
    let s4 = spec_stable_sort(proj_key(SpecNumAttr::Stars), true, s3);
    spec_rows(spec_default_selection(), s4)
}

pub fn query13(corpus: &Vec<Project>) -> (r: Table)
    ensures
        r.header.deep_view() == spec_header(spec_default_selection()),
        r.rows.deep_view() == spec_query13(corpus@),
{
    let langs = vec![
        Language::Java,
        Language::Python,
        Language::PHP,
        Language::CSharp,
        Language::C,
        Language::Cpp,
    ];
    proof {
        assert(langs@ =~= query13_languages());
    }
    let ws = all_refs(corpus);
    let ws = filter_by(ws, &Pred::LanguageMember(langs));
    let ws = filter_by(ws, &not_fork());
    let ws = filter_by(ws, &Pred::AtLeast(NumAttr::Stars, 100));
    let ws = sort_working_set(ws, &NumAttr::Stars, true);
    let sel = default_selection();
    make_table(&sel, &ws)
}

// ---------------------------------------------------------------------------
// Query 14: topic models. Eight languages, a readme file; a seeded random
// draw of 5000; URL and one row per matching path.
// ---------------------------------------------------------------------------

pub open spec fn query14_languages() -> Seq<Language> {
    seq![
        Language::Java,
        Language::Python,
        Language::HTML,
        Language::CSS,
        Language::C,
        Language::Cpp,
        Language::Ruby,
        Language::JavaScript,
    ]
}

pub open spec fn query14_readme_count(pat: Seq<char>) -> SpecNumAttr {
    SpecNumAttr::Count(SpecCollectionExpr::Paths(Some(SpecPathPred::LocationMatches(pat))))
}

pub open spec fn query14_selection(pat: Seq<char>) -> SpecSelection {
    SpecSelection {
        before: seq![Column::Url],
        nested: Some(SpecNestedColumn::PathLocationsIf(Some(SpecPathPred::LocationMatches(pat)))),
        after: Seq::empty(),
    }
}

pub open spec fn spec_query14(corpus: Seq<Project>, pat: Seq<char>) -> Seq<Seq<Seq<char>>> {
    let s1 = spec_filter(SpecPred::LanguageMember(query14_languages()), corpus);
    let s2 = spec_filter(SpecPred::AtLeast(query14_readme_count(pat), 1), s1);
    let s3 = spec_random_sample(s2, 5000, 1);
    spec_rows(query14_selection(pat), s3)
}

pub fn query14(corpus: &Vec<Project>) -> (r: Result<Table, QueryError>)
    ensures
        r is Ok <==> regex_compiles("(readme|README)\\.md"@),
        r is Ok ==> r->Ok_0.header.deep_view() == spec_header(
            query14_selection("(readme|README)\\.md"@),
        ),
        r is Ok ==> r->Ok_0.rows.deep_view() == spec_query14(corpus@, "(readme|README)\\.md"@),
        r is Err ==> r->Err_0 == QueryError::Predicate,
{
    let readme_regex = match Matcher::compile("(readme|README)\\.md") {
        Ok(m) => m,
        Err(e) => {
            return Err(e);
        },
    };
    let ghost pat = readme_regex.pattern_view();
    let langs = vec![
        Language::Java,
        Language::Python,
        Language::HTML,
        Language::CSS,
        Language::C,
        Language::Cpp,
        Language::Ruby,
        Language::JavaScript,
    ];
    proof {
        assert(langs@ =~= query14_languages());
    }
    let ws = all_refs(corpus);
    let ws = filter_by(ws, &Pred::LanguageMember(langs));
    let ws = filter_by(ws, &Pred::AtLeast(
        NumAttr::Count(
            CollectionExpr::Paths(Some(PathPred::LocationMatches(readme_regex.duplicate()))),
        ),
        1,
    ));
    let ws = random_sample(ws, 5000, 1);
    let sel = Selection {
        before: vec![Column::Url],
        nested: Some(NestedColumn::PathLocationsIf(Some(PathPred::LocationMatches(readme_regex)))),
        after: Vec::new(),
    };
    proof {
        assert(crate::render::selection_view(sel) =~~= query14_selection(pat));
    }
    Ok(make_table(&sel, &ws))
}

// ---------------------------------------------------------------------------
// Query 15: cryptographic misuses. Java, more than 100 stars, more than 100
// commits, created between July 2015 and August 2018.
// ---------------------------------------------------------------------------

pub open spec fn spec_query15(corpus: Seq<Project>) -> Seq<Seq<Seq<char>>> {
    let s1 = spec_filter(SpecPred::LanguageEqual(Language::Java), corpus);
    let s2 = spec_filter(SpecPred::MoreThan(SpecNumAttr::Stars, 100), s1);
    let s3 = spec_filter(
        SpecPred::MoreThan(SpecNumAttr::Count(SpecCollectionExpr::Commits(None)), 100),
        s2,
    );
    let s4 = spec_filter(
        SpecPred::AtLeast(SpecNumAttr::Created, spec_month_start_seconds(2015, 7)),
        s3,
    );
    let s5 = spec_filter(
        SpecPred::AtMost(SpecNumAttr::Created, spec_month_start_seconds(2018, 8)),
        s4,
    );
    spec_rows(spec_default_selection(), s5)
}

pub fn query15(corpus: &Vec<Project>) -> (r: Table)
    ensures
        r.header.deep_view() == spec_header(spec_default_selection()),
        r.rows.deep_view() == spec_query15(corpus@),
{
    let ws = all_refs(corpus);
    let ws = filter_by(ws, &Pred::LanguageEqual(Language::Java));
    let ws = filter_by(ws, &Pred::MoreThan(NumAttr::Stars, 100));
    let ws = filter_by(ws, &Pred::MoreThan(NumAttr::Count(CollectionExpr::Commits(None)), 100));
    let since = month_start_timestamp(2015, 7);
    let ws = filter_by(ws, &Pred::AtLeast(NumAttr::Created, since));
    let until = month_start_timestamp(2018, 8);
    let ws = filter_by(ws, &Pred::AtMost(NumAttr::Created, until));
    let sel = default_selection();
    make_table(&sel, &ws)
}

} // verus!
