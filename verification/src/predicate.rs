use vstd::prelude::*;

use crate::entities::{Commit, FilePath, Language, Project, User};
use crate::fraction::{Fraction, ratio_at_least, spec_ratio_at_least};
use crate::matcher::{Matcher, regex_match};
use crate::seq_facts::lemma_filter_push;

verus! {

// ---------------------------------------------------------------------------
// Mathematical model of the predicate algebra.
//
// Every executable predicate has a ghost mirror in which a compiled regex is
// represented by its pattern alone, so the contracts of whole query pipelines
// can be written without mentioning any compiled value.
// ---------------------------------------------------------------------------

pub enum SpecCommitPred {
    MessageMatches(Seq<char>),
    AuthoredAtLeast(int),
}

pub enum SpecPathPred {
    LanguageEqual(Language),
    LocationMatches(Seq<char>),
}

pub enum SpecUserPred {
    EmailMatches(Seq<char>),
}

/// A collection reachable from a project, optionally narrowed to the
/// elements satisfying an inner predicate.
pub enum SpecCollectionExpr {
    Commits(Option<SpecCommitPred>),
    Paths(Option<SpecPathPred>),
    Users(Option<SpecUserPred>),
}

/// A numeric attribute of a project: a stored scalar or the cardinality of a
/// (possibly narrowed) nested collection.
pub enum SpecNumAttr {
    Stars,
    Forks,
    Size,
    Created,
    Count(SpecCollectionExpr),
}

/// The ghost mirror of the predicate algebra over projects.
pub enum SpecPred {
    LanguageEqual(Language),
    LanguageMember(Seq<Language>),
    IsFork,
    HasIssues,
    AtLeast(SpecNumAttr, int),
    AtMost(SpecNumAttr, int),
    MoreThan(SpecNumAttr, int),
    RatioAtLeast(SpecCollectionExpr, SpecCollectionExpr, Fraction),
    Not(Box<SpecPred>),
    And(Box<SpecPred>, Box<SpecPred>),
    Or(Box<SpecPred>, Box<SpecPred>),
}

pub open spec fn spec_commit_pred_holds(p: SpecCommitPred, c: Commit) -> bool {
    match p {
        SpecCommitPred::MessageMatches(pat) => regex_match(pat, c.message@),
        SpecCommitPred::AuthoredAtLeast(t) => c.authored_timestamp >= t,
    }
}

pub open spec fn spec_path_pred_holds(p: SpecPathPred, f: FilePath) -> bool {
    match p {
        SpecPathPred::LanguageEqual(l) => f.language == l,
        SpecPathPred::LocationMatches(pat) => regex_match(pat, f.location@),
    }
}

pub open spec fn spec_user_pred_holds(p: SpecUserPred, u: User) -> bool {
    match p {
        SpecUserPred::EmailMatches(pat) => regex_match(pat, u.email@),
    }
}

/// The elements a collection expression selects from a project.
pub open spec fn spec_selected_commits(q: Option<SpecCommitPred>, s: Seq<Commit>) -> Seq<Commit> {
    match q {
        None => s,
        Some(p) => s.filter(|c: Commit| spec_commit_pred_holds(p, c)),
    }
}

pub open spec fn spec_selected_paths(q: Option<SpecPathPred>, s: Seq<FilePath>) -> Seq<FilePath> {
    match q {
        None => s,
        Some(p) => s.filter(|f: FilePath| spec_path_pred_holds(p, f)),
    }
}

pub open spec fn spec_selected_users(q: Option<SpecUserPred>, s: Seq<User>) -> Seq<User> {
    match q {
        None => s,
        Some(p) => s.filter(|u: User| spec_user_pred_holds(p, u)),
    }
}

/// Appending a commit extends the selected commits by it exactly when the
/// inner predicate keeps it.
pub proof fn lemma_selected_commits_push(q: Option<SpecCommitPred>, s: Seq<Commit>, c: Commit)
    ensures
        spec_selected_commits(q, s.push(c)) == if (match q {
            None => true,
            Some(p) => spec_commit_pred_holds(p, c),
        }) {
            spec_selected_commits(q, s).push(c)
        } else {
            spec_selected_commits(q, s)
        },
{
    match q {
        None => {
        },
        Some(p) => {
            lemma_filter_push(s, c, |cc: Commit| spec_commit_pred_holds(p, cc));
        },
    }
}

/// Appending a path extends the selected paths by it exactly when the inner
/// predicate keeps it.
pub proof fn lemma_selected_paths_push(q: Option<SpecPathPred>, s: Seq<FilePath>, f: FilePath)
    ensures
        spec_selected_paths(q, s.push(f)) == if (match q {
            None => true,
            Some(p) => spec_path_pred_holds(p, f),
        }) {
            spec_selected_paths(q, s).push(f)
        } else {
            spec_selected_paths(q, s)
        },
{
    match q {
        None => {
        },
        Some(p) => {
            lemma_filter_push(s, f, |ff: FilePath| spec_path_pred_holds(p, ff));
        },
    }
}

/// Appending a user extends the selected users by them exactly when the
/// inner predicate keeps them.
pub proof fn lemma_selected_users_push(q: Option<SpecUserPred>, s: Seq<User>, u: User)
    ensures
        spec_selected_users(q, s.push(u)) == if (match q {
            None => true,
            Some(p) => spec_user_pred_holds(p, u),
        }) {
            spec_selected_users(q, s).push(u)
        } else {
            spec_selected_users(q, s)
        },
{
    match q {
        None => {
        },
        Some(p) => {
            lemma_filter_push(s, u, |uu: User| spec_user_pred_holds(p, uu));
        },
    }
}

/// The cardinality a collection expression evaluates to on a project.
pub open spec fn spec_collection_count(e: SpecCollectionExpr, x: Project) -> nat {
    match e {
        SpecCollectionExpr::Commits(q) => spec_selected_commits(q, x.commits@).len(),
        SpecCollectionExpr::Paths(q) => spec_selected_paths(q, x.paths@).len(),
        SpecCollectionExpr::Users(q) => spec_selected_users(q, x.users@).len(),
    }
}

/// The value of a numeric attribute on a project.
pub open spec fn spec_num_attr(a: SpecNumAttr, x: Project) -> int {
    match a {
        SpecNumAttr::Stars => x.stars as int,
        SpecNumAttr::Forks => x.forks as int,
        SpecNumAttr::Size => x.size as int,
        SpecNumAttr::Created => x.created as int,
        SpecNumAttr::Count(e) => spec_collection_count(e, x) as int,
    }
}

/// Whether a project satisfies a predicate of the algebra.
pub open spec fn spec_pred_holds(p: SpecPred, x: Project) -> bool
    decreases p,
{
    match p {
        SpecPred::LanguageEqual(l) => x.language == l,
        SpecPred::LanguageMember(ls) => ls.contains(x.language),
        SpecPred::IsFork => x.is_fork,
        SpecPred::HasIssues => x.has_issues,
        SpecPred::AtLeast(a, v) => spec_num_attr(a, x) >= v,
        SpecPred::AtMost(a, v) => spec_num_attr(a, x) <= v,
        SpecPred::MoreThan(a, v) => spec_num_attr(a, x) > v,
        SpecPred::RatioAtLeast(num, den, f) => spec_ratio_at_least(
            spec_collection_count(num, x),
            spec_collection_count(den, x),
            f,
        ),
        SpecPred::Not(q) => !spec_pred_holds(*q, x),
        SpecPred::And(q, r) => spec_pred_holds(*q, x) && spec_pred_holds(*r, x),
        SpecPred::Or(q, r) => spec_pred_holds(*q, x) || spec_pred_holds(*r, x),
    }
}

// ---------------------------------------------------------------------------
// Executable predicates.
// ---------------------------------------------------------------------------

pub enum CommitPred {
    MessageMatches(Matcher),
    AuthoredAtLeast(i64),
}

pub enum PathPred {
    LanguageEqual(Language),
    LocationMatches(Matcher),
}

pub enum UserPred {
    EmailMatches(Matcher),
}

pub enum CollectionExpr {
    Commits(Option<CommitPred>),
    Paths(Option<PathPred>),
    Users(Option<UserPred>),
}

pub enum NumAttr {
    Stars,
    Forks,
    Size,
    Created,
    Count(CollectionExpr),
}

/// An executable predicate over projects. Regular expressions inside it are
/// compiled once, when the predicate is built.
pub enum Pred {
    LanguageEqual(Language),
    LanguageMember(Vec<Language>),
    IsFork,
    HasIssues,
    AtLeast(NumAttr, i64),
    AtMost(NumAttr, i64),
    MoreThan(NumAttr, i64),
    RatioAtLeast(CollectionExpr, CollectionExpr, Fraction),
    Not(Box<Pred>),
    And(Box<Pred>, Box<Pred>),
    Or(Box<Pred>, Box<Pred>),
}

pub open spec fn commit_pred_view(p: CommitPred) -> SpecCommitPred {
    match p {
        CommitPred::MessageMatches(m) => SpecCommitPred::MessageMatches(m.pattern_view()),
        CommitPred::AuthoredAtLeast(t) => SpecCommitPred::AuthoredAtLeast(t as int),
    }
}

pub open spec fn path_pred_view(p: PathPred) -> SpecPathPred {
    match p {
        PathPred::LanguageEqual(l) => SpecPathPred::LanguageEqual(l),
        PathPred::LocationMatches(m) => SpecPathPred::LocationMatches(m.pattern_view()),
    }
}

pub open spec fn user_pred_view(p: UserPred) -> SpecUserPred {
    match p {
        UserPred::EmailMatches(m) => SpecUserPred::EmailMatches(m.pattern_view()),
    }
}

pub open spec fn commit_pred_opt_view(q: Option<CommitPred>) -> Option<SpecCommitPred> {
    match q {
        None => None,
        Some(p) => Some(commit_pred_view(p)),
    }
}

pub open spec fn path_pred_opt_view(q: Option<PathPred>) -> Option<SpecPathPred> {
    match q {
        None => None,
        Some(p) => Some(path_pred_view(p)),
    }
}

pub open spec fn user_pred_opt_view(q: Option<UserPred>) -> Option<SpecUserPred> {
    match q {
        None => None,
        Some(p) => Some(user_pred_view(p)),
    }
}

pub open spec fn collection_expr_view(e: CollectionExpr) -> SpecCollectionExpr {
    match e {
        CollectionExpr::Commits(q) => SpecCollectionExpr::Commits(commit_pred_opt_view(q)),
        CollectionExpr::Paths(q) => SpecCollectionExpr::Paths(path_pred_opt_view(q)),
        CollectionExpr::Users(q) => SpecCollectionExpr::Users(user_pred_opt_view(q)),
    }
}

pub open spec fn num_attr_view(a: NumAttr) -> SpecNumAttr {
    match a {
        NumAttr::Stars => SpecNumAttr::Stars,
        NumAttr::Forks => SpecNumAttr::Forks,
        NumAttr::Size => SpecNumAttr::Size,
        NumAttr::Created => SpecNumAttr::Created,
        NumAttr::Count(e) => SpecNumAttr::Count(collection_expr_view(e)),
    }
}

pub open spec fn pred_view(p: Pred) -> SpecPred
    decreases p,
{
    match p {
        Pred::LanguageEqual(l) => SpecPred::LanguageEqual(l),
        Pred::LanguageMember(ls) => SpecPred::LanguageMember(ls@),
        Pred::IsFork => SpecPred::IsFork,
        Pred::HasIssues => SpecPred::HasIssues,
        Pred::AtLeast(a, v) => SpecPred::AtLeast(num_attr_view(a), v as int),
        Pred::AtMost(a, v) => SpecPred::AtMost(num_attr_view(a), v as int),
        Pred::MoreThan(a, v) => SpecPred::MoreThan(num_attr_view(a), v as int),
        Pred::RatioAtLeast(num, den, f) => SpecPred::RatioAtLeast(
            collection_expr_view(num),
            collection_expr_view(den),
            f,
        ),
        Pred::Not(q) => SpecPred::Not(Box::new(pred_view(*q))),
        Pred::And(q, r) => SpecPred::And(Box::new(pred_view(*q)), Box::new(pred_view(*r))),
        Pred::Or(q, r) => SpecPred::Or(Box::new(pred_view(*q)), Box::new(pred_view(*r))),
    }
}

// Well-formedness: every compiled regex accepts exactly its recorded
// pattern's language, and every ratio threshold has a positive denominator.

pub open spec fn commit_pred_wf(p: CommitPred) -> bool {
    match p {
        CommitPred::MessageMatches(m) => m.wf(),
        CommitPred::AuthoredAtLeast(_) => true,
    }
}

pub open spec fn path_pred_wf(p: PathPred) -> bool {
    match p {
        PathPred::LanguageEqual(_) => true,
        PathPred::LocationMatches(m) => m.wf(),
    }
}

pub open spec fn user_pred_wf(p: UserPred) -> bool {
    match p {
        UserPred::EmailMatches(m) => m.wf(),
    }
}

pub open spec fn collection_expr_wf(e: CollectionExpr) -> bool {
    match e {
        CollectionExpr::Commits(q) => match q {
            None => true,
            Some(p) => commit_pred_wf(p),
        },
        CollectionExpr::Paths(q) => match q {
            None => true,
            Some(p) => path_pred_wf(p),
        },
        CollectionExpr::Users(q) => match q {
            None => true,
            Some(p) => user_pred_wf(p),
        },
    }
}

pub open spec fn num_attr_wf(a: NumAttr) -> bool {
    match a {
        NumAttr::Count(e) => collection_expr_wf(e),
        _ => true,
    }
}

pub open spec fn pred_wf(p: Pred) -> bool
    decreases p,
{
    match p {
        Pred::LanguageEqual(_) => true,
        Pred::LanguageMember(_) => true,
        Pred::IsFork => true,
        Pred::HasIssues => true,
        Pred::AtLeast(a, _) => num_attr_wf(a),
        Pred::AtMost(a, _) => num_attr_wf(a),
        Pred::MoreThan(a, _) => num_attr_wf(a),
        Pred::RatioAtLeast(num, den, f) => collection_expr_wf(num) && collection_expr_wf(den)
            && f.wf(),
        Pred::Not(q) => pred_wf(*q),
        Pred::And(q, r) => pred_wf(*q) && pred_wf(*r),
        Pred::Or(q, r) => pred_wf(*q) && pred_wf(*r),
    }
}

// ---------------------------------------------------------------------------
// Evaluation.
// ---------------------------------------------------------------------------

pub fn eval_commit_pred(p: &CommitPred, c: &Commit) -> (r: bool)
    requires
        commit_pred_wf(*p),
    ensures
        r == spec_commit_pred_holds(commit_pred_view(*p), *c),
{
    match p {
        CommitPred::MessageMatches(m) => m.is_match(c.message.as_str()),
        CommitPred::AuthoredAtLeast(t) => c.authored_timestamp >= *t,
    }
}

pub fn eval_path_pred(p: &PathPred, f: &FilePath) -> (r: bool)
    requires
        path_pred_wf(*p),
    ensures
        r == spec_path_pred_holds(path_pred_view(*p), *f),
{
    match p {
        PathPred::LanguageEqual(l) => f.language == *l,
        PathPred::LocationMatches(m) => m.is_match(f.location.as_str()),
    }
}

pub fn eval_user_pred(p: &UserPred, u: &User) -> (r: bool)
    requires
        user_pred_wf(*p),
    ensures
        r == spec_user_pred_holds(user_pred_view(*p), *u),
{
    match p {
        UserPred::EmailMatches(m) => m.is_match(u.email.as_str()),
    }
}

/// How many commits of `s` the (optional) inner predicate selects.
pub fn count_commits(q: &Option<CommitPred>, s: &Vec<Commit>) -> (r: usize)
    requires
        match q {
            None => true,
            Some(p) => commit_pred_wf(*p),
        },
    ensures
        r == spec_selected_commits(commit_pred_opt_view(*q), s@).len(),
{
    match q {
        None => s.len(),
        Some(p) => {
            let ghost pred = |c: Commit| spec_commit_pred_holds(commit_pred_view(*p), c);
            let mut n: usize = 0;
            let mut i: usize = 0;
            while i < s.len()
                invariant
                    i <= s.len(),
                    commit_pred_wf(*p),
                    pred == (|c: Commit| spec_commit_pred_holds(commit_pred_view(*p), c)),
                    n == s@.take(i as int).filter(pred).len(),
                    n <= i,
                decreases s.len() - i,
            {
                let hit = eval_commit_pred(p, &s[i]);
                proof {
                    lemma_filter_push(s@.take(i as int), s@[i as int], pred);
                    assert(s@.take(i as int).push(s@[i as int]) =~= s@.take(i + 1));
                }
                if hit {
                    n = n + 1;
                }
                i = i + 1;
            }
            proof {
                assert(s@.take(s@.len() as int) =~= s@);
            }
            n
        },
    }
}

/// How many paths of `s` the (optional) inner predicate selects.
pub fn count_paths(q: &Option<PathPred>, s: &Vec<FilePath>) -> (r: usize)
    requires
        match q {
            None => true,
            Some(p) => path_pred_wf(*p),
        },
    ensures
        r == spec_selected_paths(path_pred_opt_view(*q), s@).len(),
{
    match q {
        None => s.len(),
        Some(p) => {
            let ghost pred = |f: FilePath| spec_path_pred_holds(path_pred_view(*p), f);
            let mut n: usize = 0;
            let mut i: usize = 0;
            while i < s.len()
                invariant
                    i <= s.len(),
                    path_pred_wf(*p),
                    pred == (|f: FilePath| spec_path_pred_holds(path_pred_view(*p), f)),
                    n == s@.take(i as int).filter(pred).len(),
                    n <= i,
                decreases s.len() - i,
            {
                proof {
                    lemma_filter_push(s@.take(i as int), s@[i as int], pred);
                    assert(s@.take(i as int).push(s@[i as int]) =~= s@.take(i + 1));
                }
                if eval_path_pred(p, &s[i]) {
                    n = n + 1;
                }
                i = i + 1;
            }
            proof {
                assert(s@.take(s@.len() as int) =~= s@);
            }
            n
        },
    }
}

/// How many users of `s` the (optional) inner predicate selects.
pub fn count_users(q: &Option<UserPred>, s: &Vec<User>) -> (r: usize)
    requires
        match q {
            None => true,
            Some(p) => user_pred_wf(*p),
        },
    ensures
        r == spec_selected_users(user_pred_opt_view(*q), s@).len(),
{
    match q {
        None => s.len(),
        Some(p) => {
            let ghost pred = |u: User| spec_user_pred_holds(user_pred_view(*p), u);
            let mut n: usize = 0;
            let mut i: usize = 0;
            while i < s.len()
                invariant
                    i <= s.len(),
                    user_pred_wf(*p),
                    pred == (|u: User| spec_user_pred_holds(user_pred_view(*p), u)),
                    n == s@.take(i as int).filter(pred).len(),
                    n <= i,
                decreases s.len() - i,
            {
                proof {
                    lemma_filter_push(s@.take(i as int), s@[i as int], pred);
                    assert(s@.take(i as int).push(s@[i as int]) =~= s@.take(i + 1));
                }
                if eval_user_pred(p, &s[i]) {
                    n = n + 1;
                }
                i = i + 1;
            }
            proof {
                assert(s@.take(s@.len() as int) =~= s@);
            }
            n
        },
    }
}

/// The cardinality a collection expression evaluates to on a project.
pub fn eval_collection_count(e: &CollectionExpr, x: &Project) -> (r: usize)
    requires
        collection_expr_wf(*e),
    ensures
        r == spec_collection_count(collection_expr_view(*e), *x),
{
    match e {
        CollectionExpr::Commits(q) => count_commits(q, &x.commits),
        CollectionExpr::Paths(q) => count_paths(q, &x.paths),
        CollectionExpr::Users(q) => count_users(q, &x.users),
    }
}

/// The value of a numeric attribute on a project. Every such value fits an
/// i128: scalars are 64-bit and counts are bounded by a collection's length.
pub fn eval_num_attr(a: &NumAttr, x: &Project) -> (r: i128)
    requires
        num_attr_wf(*a),
    ensures
        r as int == spec_num_attr(num_attr_view(*a), *x),
{
    match a {
        NumAttr::Stars => x.stars as i128,
        NumAttr::Forks => x.forks as i128,
        NumAttr::Size => x.size as i128,
        NumAttr::Created => x.created as i128,
        NumAttr::Count(e) => eval_collection_count(e, x) as i128,
    }
}

/// Whether a project satisfies a predicate.
pub fn eval_pred(p: &Pred, x: &Project) -> (r: bool)
    requires
        pred_wf(*p),
    ensures
        r == spec_pred_holds(pred_view(*p), *x),
    decreases *p,
{
    match p {
        Pred::LanguageEqual(l) => x.language == *l,
        Pred::LanguageMember(ls) => {
            let mut i: usize = 0;
            let mut found = false;
            while i < ls.len()
                invariant
                    i <= ls.len(),
                    found == ls@.take(i as int).contains(x.language),
                decreases ls.len() - i,
            {
                proof {
                    assert(ls@.take(i as int).push(ls@[i as int]) =~= ls@.take(i + 1));
                }
                if ls[i] == x.language {
                    found = true;
                    proof {
                        assert(ls@.take(i + 1)[i as int] == x.language);
                    }
                }
                i = i + 1;
            }
            proof {
                assert(ls@.take(ls@.len() as int) =~= ls@);
            }
            found
        },
        Pred::IsFork => x.is_fork,
        Pred::HasIssues => x.has_issues,
        Pred::AtLeast(a, v) => eval_num_attr(a, x) >= *v as i128,
        Pred::AtMost(a, v) => eval_num_attr(a, x) <= *v as i128,
        Pred::MoreThan(a, v) => eval_num_attr(a, x) > *v as i128,
        Pred::RatioAtLeast(num, den, f) => {
            let n = eval_collection_count(num, x);
            let d = eval_collection_count(den, x);
            ratio_at_least(n, d, f)
        },
        Pred::Not(q) => !eval_pred(q, x),
        Pred::And(q, r) => eval_pred(q, x) && eval_pred(r, x),
        Pred::Or(q, r) => eval_pred(q, x) || eval_pred(r, x),
    }
}

} // verus!
