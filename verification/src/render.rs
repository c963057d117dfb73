use vstd::prelude::*;
use vstd::string::StringExecFns;

use crate::entities::{Commit, FilePath, Language, Project, User, language_name,
    spec_language_name};
use crate::predicate::{CommitPred, PathPred, SpecCommitPred, SpecPathPred, SpecUserPred, UserPred,
    commit_pred_opt_view, commit_pred_view, commit_pred_wf, eval_commit_pred, eval_path_pred,
    eval_user_pred, path_pred_opt_view, path_pred_view, path_pred_wf, spec_commit_pred_holds,
    spec_path_pred_holds, spec_selected_commits, spec_selected_paths, spec_selected_users,
    spec_user_pred_holds, user_pred_opt_view, user_pred_view, user_pred_wf};
use crate::predicate::{lemma_selected_commits_push, lemma_selected_paths_push,
    lemma_selected_users_push};
use crate::seq_facts::{deref_seq, lemma_map_values_push, lemma_vec_deep_view_concat,
    lemma_vec_deep_view_push};

verus! {

// ---------------------------------------------------------------------------
// Deterministic stringification of the engine's value types: integers in
// decimal, timestamps as epoch seconds, booleans as their names, languages
// by canonical name, an absent license as the empty string.
// ---------------------------------------------------------------------------

pub open spec fn spec_digit_char(d: int) -> char
    recommends
        0 <= d < 10,
{
    if d == 0 {
        '0'
    } else if d == 1 {
        '1'
    } else if d == 2 {
        '2'
    } else if d == 3 {
        '3'
    } else if d == 4 {
        '4'
    } else if d == 5 {
        '5'
    } else if d == 6 {
        '6'
    } else if d == 7 {
        '7'
    } else if d == 8 {
        '8'
    } else {
        '9'
    }
}

/// The decimal digits of a non-negative integer, most significant first.
pub open spec fn spec_dec_nat(n: int) -> Seq<char>
    recommends
        n >= 0,
    decreases n,
{
    if n < 10 {
        seq![spec_digit_char(n)]
    } else {
        spec_dec_nat(n / 10) + seq![spec_digit_char(n % 10)]
    }
}

/// The decimal rendering of an integer, with a leading minus sign when
/// negative.
pub open spec fn spec_dec_int(n: int) -> Seq<char> {
    if n >= 0 {
        spec_dec_nat(n)
    } else {
        seq!['-'] + spec_dec_nat(-n)
    }
}

pub open spec fn spec_bool_name(b: bool) -> Seq<char> {
    if b {
        "true"@
    } else {
        "false"@
    }
}

fn digit_str(d: u64) -> (r: &'static str)
    requires
        d < 10,
    ensures
        r@ == seq![spec_digit_char(d as int)],
{
    let r: &'static str = if d == 0 {
        "0"
    } else if d == 1 {
        "1"
    } else if d == 2 {
        "2"
    } else if d == 3 {
        "3"
    } else if d == 4 {
        "4"
    } else if d == 5 {
        "5"
    } else if d == 6 {
        "6"
    } else if d == 7 {
        "7"
    } else if d == 8 {
        "8"
    } else {
        "9"
    };
    proof {
        reveal_strlit("0");
        reveal_strlit("1");
        reveal_strlit("2");
        reveal_strlit("3");
        reveal_strlit("4");
        reveal_strlit("5");
        reveal_strlit("6");
        reveal_strlit("7");
        reveal_strlit("8");
        reveal_strlit("9");
        assert(r@ =~= seq![spec_digit_char(d as int)]);
    }
    r
}

/// Renders a non-negative 64-bit integer in decimal.
pub fn u64_to_string(n: u64) -> (r: String)
    ensures
        r@ == spec_dec_nat(n as int),
    decreases n,
{
    if n < 10 {
        String::from_str(digit_str(n))
    } else {
        let mut s = u64_to_string(n / 10);
        s.append(digit_str(n % 10));
        s
    }
}

/// Renders a signed 64-bit integer in decimal.
pub fn i64_to_string(n: i64) -> (r: String)
    ensures
        r@ == spec_dec_int(n as int),
{
    if n >= 0 {
        u64_to_string(n as u64)
    } else {
        let m: u64 = if n == i64::MIN {
            9223372036854775808u64
        } else {
            (-n) as u64
        };
        proof {
            assert(m as int == -(n as int));
        }
        let mut s = String::from_str("-");
        let digits = u64_to_string(m);
        s.append(digits.as_str());
        proof {
            reveal_strlit("-");
            assert(s@ =~= seq!['-'] + spec_dec_nat(m as int));
        }
        s
    }
}

/// Renders a boolean under its name.
pub fn bool_to_string(b: bool) -> (r: String)
    ensures
        r@ == spec_bool_name(b),
{
    if b {
        String::from_str("true")
    } else {
        String::from_str("false")
    }
}

// ---------------------------------------------------------------------------
// Projections: an ordered list of scalar extractors around at most one
// nested-collection extractor.
// ---------------------------------------------------------------------------

/// A scalar attribute of a project selected for output.
#[derive(Clone, Copy, Debug, PartialEq, Eq, Structural)]
pub enum Column {
    Id,
    Url,
    Language,
    Stars,
    Forks,
    Size,
    Created,
    IsFork,
    HasIssues,
    License,
}

/// A nested-collection extractor: one output row per selected sub-item.
pub enum NestedColumn {
    CommitMessagesIf(Option<CommitPred>),
    PathLocationsIf(Option<PathPred>),
    UserEmailsIf(Option<UserPred>),
}

pub enum SpecNestedColumn {
    CommitMessagesIf(Option<SpecCommitPred>),
    PathLocationsIf(Option<SpecPathPred>),
    UserEmailsIf(Option<SpecUserPred>),
}

pub open spec fn nested_column_view(nc: NestedColumn) -> SpecNestedColumn {
    match nc {
        NestedColumn::CommitMessagesIf(q) => SpecNestedColumn::CommitMessagesIf(
            commit_pred_opt_view(q),
        ),
        NestedColumn::PathLocationsIf(q) => SpecNestedColumn::PathLocationsIf(
            path_pred_opt_view(q),
        ),
        NestedColumn::UserEmailsIf(q) => SpecNestedColumn::UserEmailsIf(user_pred_opt_view(q)),
    }
}

pub open spec fn nested_column_wf(nc: NestedColumn) -> bool {
    match nc {
        NestedColumn::CommitMessagesIf(q) => match q {
            None => true,
            Some(p) => commit_pred_wf(p),
        },
        NestedColumn::PathLocationsIf(q) => match q {
            None => true,
            Some(p) => path_pred_wf(p),
        },
        NestedColumn::UserEmailsIf(q) => match q {
            None => true,
            Some(p) => user_pred_wf(p),
        },
    }
}

/// A projection: scalar columns around at most one nested extractor. A
/// projection with a nested extractor yields one row per selected sub-item,
/// the scalar cells repeated on every row; one without yields exactly one
/// row per project.
pub struct Selection {
    pub before: Vec<Column>,
    pub nested: Option<NestedColumn>,
    pub after: Vec<Column>,
}

#[verifier::ext_equal]
pub struct SpecSelection {
    pub before: Seq<Column>,
    pub nested: Option<SpecNestedColumn>,
    pub after: Seq<Column>,
}

pub open spec fn selection_view(sel: Selection) -> SpecSelection {
    SpecSelection {
        before: sel.before@,
        nested: match sel.nested {
            None => None,
            Some(nc) => Some(nested_column_view(nc)),
        },
        after: sel.after@,
    }
}

pub open spec fn selection_wf(sel: Selection) -> bool {
    match sel.nested {
        None => true,
        Some(nc) => nested_column_wf(nc),
    }
}

/// The rendered value of one scalar column on one project.
pub open spec fn spec_column_value(c: Column, p: Project) -> Seq<char> {
    match c {
        Column::Id => spec_dec_nat(p.id as int),
        Column::Url => p.url@,
        Column::Language => spec_language_name(p.language),
        Column::Stars => spec_dec_nat(p.stars as int),
        Column::Forks => spec_dec_nat(p.forks as int),
        Column::Size => spec_dec_nat(p.size as int),
        Column::Created => spec_dec_int(p.created as int),
        Column::IsFork => spec_bool_name(p.is_fork),
        Column::HasIssues => spec_bool_name(p.has_issues),
        Column::License => match p.license {
            Some(s) => s@,
            None => Seq::empty(),
        },
    }
}

pub open spec fn col_value_fn(p: Project) -> spec_fn(Column) -> Seq<char> {
    |c: Column| spec_column_value(c, p)
}

/// The rendered scalar cells of a column list on one project, in order.
pub open spec fn spec_scalar_cells(cols: Seq<Column>, p: Project) -> Seq<Seq<char>> {
    cols.map_values(col_value_fn(p))
}

pub open spec fn commit_message_fn() -> spec_fn(Commit) -> Seq<char> {
    |c: Commit| c.message@
}

pub open spec fn path_location_fn() -> spec_fn(FilePath) -> Seq<char> {
    |f: FilePath| f.location@
}

pub open spec fn user_email_fn() -> spec_fn(User) -> Seq<char> {
    |u: User| u.email@
}

/// The values a nested extractor draws from one project, in collection
/// order.
pub open spec fn spec_nested_values(nc: SpecNestedColumn, p: Project) -> Seq<Seq<char>> {
    match nc {
        SpecNestedColumn::CommitMessagesIf(q) => spec_selected_commits(
            q,
            p.commits@,
        ).map_values(commit_message_fn()),
        SpecNestedColumn::PathLocationsIf(q) => spec_selected_paths(q, p.paths@).map_values(
            path_location_fn(),
        ),
        SpecNestedColumn::UserEmailsIf(q) => spec_selected_users(q, p.users@).map_values(
            user_email_fn(),
        ),
    }
}

pub open spec fn nested_row_fn(sel: SpecSelection, p: Project) -> spec_fn(Seq<char>) -> Seq<
    Seq<char>,
> {
    |v: Seq<char>| spec_scalar_cells(sel.before, p) + seq![v] + spec_scalar_cells(sel.after, p)
}

/// The output rows one project expands to under a projection.
pub open spec fn spec_project_rows(sel: SpecSelection, p: Project) -> Seq<Seq<Seq<char>>> {
    match sel.nested {
        None => seq![spec_scalar_cells(sel.before, p) + spec_scalar_cells(sel.after, p)],
        Some(nc) => spec_nested_values(nc, p).map_values(nested_row_fn(sel, p)),
    }
}

pub open spec fn project_rows_fn(sel: SpecSelection) -> spec_fn(Project) -> Seq<Seq<Seq<char>>> {
    |p: Project| spec_project_rows(sel, p)
}

/// The output rows of a whole working set: each project's expansion, in
/// working-set order.
pub open spec fn spec_rows(sel: SpecSelection, s: Seq<Project>) -> Seq<Seq<Seq<char>>> {
    s.map_values(project_rows_fn(sel)).flatten()
}

/// Renders one scalar column of one project.
pub fn column_value(c: &Column, p: &Project) -> (r: String)
    ensures
        r@ == spec_column_value(*c, *p),
{
    match c {
        Column::Id => u64_to_string(p.id),
        Column::Url => p.url.clone(),
        Column::Language => language_name(p.language),
        Column::Stars => u64_to_string(p.stars),
        Column::Forks => u64_to_string(p.forks),
        Column::Size => u64_to_string(p.size),
        Column::Created => i64_to_string(p.created),
        Column::IsFork => bool_to_string(p.is_fork),
        Column::HasIssues => bool_to_string(p.has_issues),
        Column::License => match &p.license {
            Some(s) => s.clone(),
            None => String::new(),
        },
    }
}

/// Renders the scalar cells of a column list on one project.
fn scalar_cells(cols: &Vec<Column>, p: &Project) -> (r: Vec<String>)
    ensures
        r.deep_view() == spec_scalar_cells(cols@, *p),
{
    let mut r: Vec<String> = Vec::new();
    let mut i: usize = 0;
    while i < cols.len()
        invariant
            i <= cols.len(),
            r.deep_view() == spec_scalar_cells(cols@.take(i as int), *p),
        decreases cols.len() - i,
    {
        let ghost r0 = r;
        let cell = column_value(&cols[i], p);
        let ghost cell0 = cell;
        r.push(cell);
        proof {
            lemma_vec_deep_view_push(r0, r, cell0);
            assert(cols@.take(i as int).push(cols@[i as int]) =~= cols@.take(i + 1));
            lemma_map_values_push(cols@.take(i as int), cols@[i as int], col_value_fn(*p));
            assert(col_value_fn(*p)(cols@[i as int]) == spec_column_value(cols@[i as int], *p));
            assert(cell0.deep_view() == spec_column_value(cols@[i as int], *p));
        }
        i = i + 1;
    }
    proof {
        assert(cols@.take(cols@.len() as int) =~= cols@);
    }
    r
}

/// One output row: the scalar cells before, one nested value, the scalar
/// cells after.
fn nested_row(sel: &Selection, p: &Project, v: String) -> (r: Vec<String>)
    ensures
        r.deep_view() == nested_row_fn(selection_view(*sel), *p)(v@),
{
    let ghost vv = v@;
    let ghost v0 = v;
    let mut row = scalar_cells(&sel.before, p);
    let ghost row1 = row;
    row.push(v);
    let ghost row2 = row;
    let mut after = scalar_cells(&sel.after, p);
    let ghost after0 = after;
    row.append(&mut after);
    proof {
        lemma_vec_deep_view_push(row1, row2, v0);
        lemma_vec_deep_view_concat(row2, after0, row);
        assert(nested_row_fn(selection_view(*sel), *p)(vv) == spec_scalar_cells(sel.before@, *p)
            + seq![vv] + spec_scalar_cells(sel.after@, *p));
        assert(row.deep_view() =~= spec_scalar_cells(sel.before@, *p) + seq![vv]
            + spec_scalar_cells(sel.after@, *p));
    }
    row
}

/// Expands one project into its output rows under a projection.
fn project_rows(sel: &Selection, p: &Project) -> (r: Vec<Vec<String>>)
    requires
        selection_wf(*sel),
    ensures
        r.deep_view() == spec_project_rows(selection_view(*sel), *p),
{
    let ghost sv = selection_view(*sel);
    let mut rows: Vec<Vec<String>> = Vec::new();
    match &sel.nested {
        None => {
            let mut row = scalar_cells(&sel.before, p);
            let ghost row1 = row;
            let mut after = scalar_cells(&sel.after, p);
            let ghost after0 = after;
            row.append(&mut after);
            let ghost row2 = row;
            let ghost rows0 = rows;
            rows.push(row);
            proof {
                lemma_vec_deep_view_concat(row1, after0, row2);
                lemma_vec_deep_view_push(rows0, rows, row2);
                assert(rows0.deep_view() =~= Seq::<Seq<Seq<char>>>::empty());
                assert(rows.deep_view() =~= seq![
                    spec_scalar_cells(sv.before, *p) + spec_scalar_cells(sv.after, *p),
                ]);
            }
        },
        Some(nc) => match nc {
            NestedColumn::CommitMessagesIf(q) => {
                let ghost qv = commit_pred_opt_view(*q);
                let ghost pred = |c: Commit| spec_commit_pred_holds(
                    commit_pred_view(q->Some_0),
                    c,
                );
                let s = &p.commits;
                let mut i: usize = 0;
                while i < s.len()
                    invariant
                        i <= s.len(),
                        selection_wf(*sel),
                        sv == selection_view(*sel),
                        sv.nested == Some(
                            SpecNestedColumn::CommitMessagesIf(commit_pred_opt_view(*q)),
                        ),
                        qv == commit_pred_opt_view(*q),
                        q is Some ==> commit_pred_wf(q->Some_0),
                        q is Some ==> pred == (|c: Commit| spec_commit_pred_holds(
                            commit_pred_view(q->Some_0),
                            c,
                        )),
                        s == &p.commits,
                        rows.deep_view() == spec_selected_commits(
                            qv,
                            s@.take(i as int),
                        ).map_values(commit_message_fn()).map_values(nested_row_fn(sv, *p)),
                    decreases s.len() - i,
                {
                    let keep = match q {
                        None => true,
                        Some(qq) => eval_commit_pred(qq, &s[i]),
                    };
                    proof {
                        assert(s@.take(i as int).push(s@[i as int]) =~= s@.take(i + 1));
                        lemma_selected_commits_push(qv, s@.take(i as int), s@[i as int]);
                    }
                    if keep {
                        let row = nested_row(sel, p, s[i].message.clone());
                        let ghost row0 = row;
                        let ghost rows0 = rows;
                        rows.push(row);
                        proof {
                            let sel1 = spec_selected_commits(qv, s@.take(i as int));
                            let valf = commit_message_fn();
                            let rowf = nested_row_fn(sv, *p);
                            lemma_vec_deep_view_push(rows0, rows, row0);
                            assert(spec_selected_commits(qv, s@.take(i + 1)) == sel1.push(s@[i as int]));
                            lemma_map_values_push(sel1, s@[i as int], valf);
                            lemma_map_values_push(sel1.map_values(valf), valf(s@[i as int]), rowf);
                            assert(valf(s@[i as int]) == s@[i as int].message@);
                            assert(row0.deep_view() == rowf(s@[i as int].message@));
                        }
                    }
                    i = i + 1;
                }
                proof {
                    assert(s@.take(s@.len() as int) =~= s@);
                }
            },
            NestedColumn::PathLocationsIf(q) => {
                let ghost qv = path_pred_opt_view(*q);
                let ghost pred = |f: FilePath| spec_path_pred_holds(path_pred_view(q->Some_0), f);
                let s = &p.paths;
                let mut i: usize = 0;
                while i < s.len()
                    invariant
                        i <= s.len(),
                        selection_wf(*sel),
                        sv == selection_view(*sel),
                        sv.nested == Some(
                            SpecNestedColumn::PathLocationsIf(path_pred_opt_view(*q)),
                        ),
                        qv == path_pred_opt_view(*q),
                        q is Some ==> path_pred_wf(q->Some_0),
                        q is Some ==> pred == (|f: FilePath| spec_path_pred_holds(
                            path_pred_view(q->Some_0),
                            f,
                        )),
                        s == &p.paths,
                        rows.deep_view() == spec_selected_paths(qv, s@.take(i as int)).map_values(
                            path_location_fn(),
                        ).map_values(nested_row_fn(sv, *p)),
                    decreases s.len() - i,
                {
                    let keep = match q {
                        None => true,
                        Some(qq) => eval_path_pred(qq, &s[i]),
                    };
                    proof {
                        assert(s@.take(i as int).push(s@[i as int]) =~= s@.take(i + 1));
                        lemma_selected_paths_push(qv, s@.take(i as int), s@[i as int]);
                    }
                    if keep {
                        let row = nested_row(sel, p, s[i].location.clone());
                        let ghost row0 = row;
                        let ghost rows0 = rows;
                        rows.push(row);
                        proof {
                            let sel1 = spec_selected_paths(qv, s@.take(i as int));
                            let valf = path_location_fn();
                            let rowf = nested_row_fn(sv, *p);
                            lemma_vec_deep_view_push(rows0, rows, row0);
                            assert(spec_selected_paths(qv, s@.take(i + 1)) == sel1.push(s@[i as int]));
                            lemma_map_values_push(sel1, s@[i as int], valf);
                            lemma_map_values_push(sel1.map_values(valf), valf(s@[i as int]), rowf);
                            assert(valf(s@[i as int]) == s@[i as int].location@);
                            assert(row0.deep_view() == rowf(s@[i as int].location@));
                        }
                    }
                    i = i + 1;
                }
                proof {
                    assert(s@.take(s@.len() as int) =~= s@);
                }
            },
            NestedColumn::UserEmailsIf(q) => {
                let ghost qv = user_pred_opt_view(*q);
                let ghost pred = |u: User| spec_user_pred_holds(user_pred_view(q->Some_0), u);
                let s = &p.users;
                let mut i: usize = 0;
                while i < s.len()
                    invariant
                        i <= s.len(),
                        selection_wf(*sel),
                        sv == selection_view(*sel),
                        sv.nested == Some(SpecNestedColumn::UserEmailsIf(user_pred_opt_view(*q))),
                        qv == user_pred_opt_view(*q),
                        q is Some ==> user_pred_wf(q->Some_0),
                        q is Some ==> pred == (|u: User| spec_user_pred_holds(
                            user_pred_view(q->Some_0),
                            u,
                        )),
                        s == &p.users,
                        rows.deep_view() == spec_selected_users(qv, s@.take(i as int)).map_values(
                            user_email_fn(),
                        ).map_values(nested_row_fn(sv, *p)),
                    decreases s.len() - i,
                {
                    let keep = match q {
                        None => true,
                        Some(qq) => eval_user_pred(qq, &s[i]),
                    };
                    proof {
                        assert(s@.take(i as int).push(s@[i as int]) =~= s@.take(i + 1));
                        lemma_selected_users_push(qv, s@.take(i as int), s@[i as int]);
                    }
                    if keep {
                        let row = nested_row(sel, p, s[i].email.clone());
                        let ghost row0 = row;
                        let ghost rows0 = rows;
                        rows.push(row);
                        proof {
                            let sel1 = spec_selected_users(qv, s@.take(i as int));
                            let valf = user_email_fn();
                            let rowf = nested_row_fn(sv, *p);
                            lemma_vec_deep_view_push(rows0, rows, row0);
                            assert(spec_selected_users(qv, s@.take(i + 1)) == sel1.push(s@[i as int]));
                            lemma_map_values_push(sel1, s@[i as int], valf);
                            lemma_map_values_push(sel1.map_values(valf), valf(s@[i as int]), rowf);
                            assert(valf(s@[i as int]) == s@[i as int].email@);
                            assert(row0.deep_view() == rowf(s@[i as int].email@));
                        }
                    }
                    i = i + 1;
                }
                proof {
                    assert(s@.take(s@.len() as int) =~= s@);
                }
            },
        },
    }
    rows
}

/// Expands a whole working set into its output rows, in working-set order.
pub fn project_working_set(sel: &Selection, ws: &Vec<&Project>) -> (r: Vec<Vec<String>>)
    requires
        selection_wf(*sel),
    ensures
        r.deep_view() == spec_rows(selection_view(*sel), deref_seq(ws@)),
{
    let ghost sv = selection_view(*sel);
    let ghost dws = deref_seq(ws@);
    let mut rows: Vec<Vec<String>> = Vec::new();
    let mut i: usize = 0;
    while i < ws.len()
        invariant
            i <= ws.len(),
            selection_wf(*sel),
            sv == selection_view(*sel),
            dws == deref_seq(ws@),
            dws.len() == ws@.len(),
            rows.deep_view() == dws.take(i as int).map_values(project_rows_fn(sv)).flatten(),
        decreases ws.len() - i,
    {
        let x: &Project = ws[i];
        let mut next = project_rows(sel, x);
        let ghost rows0 = rows;
        let ghost next0 = next;
        rows.append(&mut next);
        proof {
            broadcast use Seq::lemma_flatten_push;

            lemma_vec_deep_view_concat(rows0, next0, rows);
            assert(dws[i as int] == *ws@[i as int]);
            assert(next0.deep_view() == spec_project_rows(sv, dws[i as int]));
            assert(dws.take(i as int).push(dws[i as int]) =~= dws.take(i + 1));
            lemma_map_values_push(dws.take(i as int), dws[i as int], project_rows_fn(sv));
            assert(project_rows_fn(sv)(dws[i as int]) == spec_project_rows(sv, dws[i as int]));
        }
        i = i + 1;
    }
    proof {
        assert(dws.take(dws.len() as int) =~= dws);
    }
    rows
}

/// The field name of a scalar column in the output header.
pub open spec fn spec_column_name(c: Column) -> Seq<char> {
    match c {
        Column::Id => "id"@,
        Column::Url => "url"@,
        Column::Language => "language"@,
        Column::Stars => "stars"@,
        Column::Forks => "forks"@,
        Column::Size => "size"@,
        Column::Created => "created"@,
        Column::IsFork => "is_fork"@,
        Column::HasIssues => "has_issues"@,
        Column::License => "license"@,
    }
}

pub open spec fn col_name_fn() -> spec_fn(Column) -> Seq<char> {
    |c: Column| spec_column_name(c)
}

/// The field name of a nested extractor in the output header.
pub open spec fn spec_nested_name(nc: SpecNestedColumn) -> Seq<char> {
    match nc {
        SpecNestedColumn::CommitMessagesIf(_) => "commit_message"@,
        SpecNestedColumn::PathLocationsIf(_) => "path_location"@,
        SpecNestedColumn::UserEmailsIf(_) => "user_email"@,
    }
}

/// The header of a projection: one field name per column, in field order.
pub open spec fn spec_header(sel: SpecSelection) -> Seq<Seq<char>> {
    sel.before.map_values(col_name_fn()) + (match sel.nested {
        None => Seq::<Seq<char>>::empty(),
        Some(nc) => seq![spec_nested_name(nc)],
    }) + sel.after.map_values(col_name_fn())
}

fn column_name(c: &Column) -> (r: String)
    ensures
        r@ == spec_column_name(*c),
{
    match c {
        Column::Id => String::from_str("id"),
        Column::Url => String::from_str("url"),
        Column::Language => String::from_str("language"),
        Column::Stars => String::from_str("stars"),
        Column::Forks => String::from_str("forks"),
        Column::Size => String::from_str("size"),
        Column::Created => String::from_str("created"),
        Column::IsFork => String::from_str("is_fork"),
        Column::HasIssues => String::from_str("has_issues"),
        Column::License => String::from_str("license"),
    }
}

fn nested_name(nc: &NestedColumn) -> (r: String)
    ensures
        r@ == spec_nested_name(nested_column_view(*nc)),
{
    match nc {
        NestedColumn::CommitMessagesIf(_) => String::from_str("commit_message"),
        NestedColumn::PathLocationsIf(_) => String::from_str("path_location"),
        NestedColumn::UserEmailsIf(_) => String::from_str("user_email"),
    }
}

fn header_cells(cols: &Vec<Column>) -> (r: Vec<String>)
    ensures
        r.deep_view() == cols@.map_values(col_name_fn()),
{
    let mut r: Vec<String> = Vec::new();
    let mut i: usize = 0;
    while i < cols.len()
        invariant
            i <= cols.len(),
            r.deep_view() == cols@.take(i as int).map_values(col_name_fn()),
        decreases cols.len() - i,
    {
        let ghost r0 = r;
        let cell = column_name(&cols[i]);
        let ghost cell0 = cell;
        r.push(cell);
        proof {
            lemma_vec_deep_view_push(r0, r, cell0);
            assert(cols@.take(i as int).push(cols@[i as int]) =~= cols@.take(i + 1));
            lemma_map_values_push(cols@.take(i as int), cols@[i as int], col_name_fn());
            assert(col_name_fn()(cols@[i as int]) == spec_column_name(cols@[i as int]));
        }
        i = i + 1;
    }
    proof {
        assert(cols@.take(cols@.len() as int) =~= cols@);
    }
    r
}

/// Renders the header of a projection: the stable field-name list handed to
/// the serializer once, before any record.
pub fn selection_header(sel: &Selection) -> (r: Vec<String>)
    ensures
        r.deep_view() == spec_header(selection_view(*sel)),
{
    let ghost sv = selection_view(*sel);
    let mut h = header_cells(&sel.before);
    match &sel.nested {
        None => {
            proof {
                assert(h.deep_view() =~= sv.before.map_values(col_name_fn()) + Seq::<
                    Seq<char>,
                >::empty());
            }
        },
        Some(nc) => {
            let ghost h0 = h;
            let name = nested_name(nc);
            let ghost name0 = name;
            h.push(name);
            proof {
                lemma_vec_deep_view_push(h0, h, name0);
                assert(h.deep_view() =~= sv.before.map_values(col_name_fn()) + seq![
                    spec_nested_name(nested_column_view(*nc)),
                ]);
            }
        },
    }
    let ghost h1 = h;
    let mut t = header_cells(&sel.after);
    let ghost t0 = t;
    h.append(&mut t);
    proof {
        lemma_vec_deep_view_concat(h1, t0, h);
        assert(h.deep_view() =~= spec_header(sv));
    }
    h
}

/// An output table: the ordered field names, then one ordered value list per
/// record, every value already rendered deterministically.
pub struct Table {
    pub header: Vec<String>,
    pub rows: Vec<Vec<String>>,
}

/// Projects a working set into an output table under a projection.
pub fn make_table(sel: &Selection, ws: &Vec<&Project>) -> (r: Table)
    requires
        selection_wf(*sel),
    ensures
        r.header.deep_view() == spec_header(selection_view(*sel)),
        r.rows.deep_view() == spec_rows(selection_view(*sel), deref_seq(ws@)),
        forall|i: int| 0 <= i < r.rows@.len() ==> (#[trigger] r.rows@[i])@.len() == r.header@.len(),
{
    let header = selection_header(sel);
    let rows = project_working_set(sel, ws);
    proof {
        let sv = selection_view(*sel);
        lemma_rows_match_header(sv, deref_seq(ws@));
        assert forall|i: int|
            0 <= i < rows@.len() implies (#[trigger] rows@[i])@.len() == header@.len() by {
            assert(rows.deep_view()[i] == rows@[i].deep_view());
            assert(rows@[i].deep_view().len() == rows@[i]@.len());
            assert(header.deep_view().len() == header@.len());
        }
    }
    Table { header, rows }
}

/// Every row a single project expands to has exactly one cell per header
/// field.
proof fn lemma_project_rows_match_header(sel: SpecSelection, p: Project)
    ensures
        forall|i: int|
            0 <= i < spec_project_rows(sel, p).len() ==> (#[trigger] spec_project_rows(
                sel,
                p,
            )[i]).len() == spec_header(sel).len(),
{
    match sel.nested {
        None => {
        },
        Some(nc) => {
            let vals = spec_nested_values(nc, p);
            let rowf = nested_row_fn(sel, p);
            assert forall|i: int|
                0 <= i < spec_project_rows(sel, p).len() implies (#[trigger] spec_project_rows(
                sel,
                p,
            )[i]).len() == spec_header(sel).len() by {
                crate::seq_facts::lemma_map_values_index(vals, rowf, i);
            }
        },
    }
}

/// The engine's contract with the serializer: a stable field order — every
/// output row carries exactly one rendered value per header field.
pub proof fn lemma_rows_match_header(sel: SpecSelection, s: Seq<Project>)
    ensures
        forall|i: int|
            0 <= i < spec_rows(sel, s).len() ==> (#[trigger] spec_rows(sel, s)[i]).len()
                == spec_header(sel).len(),
    decreases s.len(),
{
    let rowsf = project_rows_fn(sel);
    if s.len() == 0 {
        assert(s.map_values(rowsf) =~= Seq::<Seq<Seq<Seq<char>>>>::empty());
        assert(spec_rows(sel, s) =~= Seq::<Seq<Seq<char>>>::empty());
    } else {
        let rest = s.drop_first();
        lemma_rows_match_header(sel, rest);
        lemma_project_rows_match_header(sel, s[0]);
        let part = spec_project_rows(sel, s[0]);
        assert(s.map_values(rowsf) =~= seq![part] + rest.map_values(rowsf)) by {
            assert forall|j: int| 0 <= j < s.len() implies s.map_values(rowsf)[j] == (seq![part]
                + rest.map_values(rowsf))[j] by {
                crate::seq_facts::lemma_map_values_index(s, rowsf, j);
                if j > 0 {
                    crate::seq_facts::lemma_map_values_index(rest, rowsf, j - 1);
                    assert(rest[j - 1] == s[j]);
                }
            }
        }
        vstd::seq_lib::lemma_flatten_concat(seq![part], rest.map_values(rowsf));
        seq![part].lemma_flatten_one_element();
        assert(spec_rows(sel, s) == part + spec_rows(sel, rest));
        assert forall|i: int|
            0 <= i < spec_rows(sel, s).len() implies (#[trigger] spec_rows(sel, s)[i]).len()
            == spec_header(sel).len() by {
            if i < part.len() {
                assert(spec_rows(sel, s)[i] == part[i]);
            } else {
                assert(spec_rows(sel, s)[i] == spec_rows(sel, rest)[i - part.len()]);
            }
        }
    }
}

/// The projection used by queries that serialize whole projects: every
/// scalar column, in the model's field order.
pub open spec fn spec_default_selection() -> SpecSelection {
    SpecSelection {
        before: seq![
            Column::Id,
            Column::Url,
            Column::Language,
            Column::Stars,
            Column::Forks,
            Column::Size,
            Column::Created,
            Column::IsFork,
            Column::HasIssues,
            Column::License,
        ],
        nested: None,
        after: Seq::empty(),
    }
}

/// Builds the default all-scalar projection.
pub fn default_selection() -> (r: Selection)
    ensures
        selection_view(r) == spec_default_selection(),
        selection_wf(r),
{
    let before = vec![
        Column::Id,
        Column::Url,
        Column::Language,
        Column::Stars,
        Column::Forks,
        Column::Size,
        Column::Created,
        Column::IsFork,
        Column::HasIssues,
        Column::License,
    ];
    let after: Vec<Column> = Vec::new();
    let r = Selection { before, nested: None, after };
    proof {
        assert(selection_view(r) =~~= spec_default_selection());
    }
    r
}

} // verus!
