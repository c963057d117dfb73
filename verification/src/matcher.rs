use vstd::prelude::*;
use vstd::string::StringExecFns;

use crate::error::QueryError;

verus! {

// The engine's only use of an outside crate in the middle of its logic is
// regular-expression search. A compiled regex is opaque to the verifier, so
// the pattern it was built from and the language it accepts are named here
// and every contract speaks through those names.
#[verifier::external_type_specification]
#[verifier::external_body]
pub struct ExRegex(regex::Regex);

#[verifier::external_type_specification]
#[verifier::external_body]
pub struct ExRegexError(regex::Error);

/// The pattern a compiled regex was built from.
pub uninterp spec fn regex_pattern(r: regex::Regex) -> Seq<char>;

/// Whether an unanchored search for `pattern` finds a match anywhere in
/// `text`. The outcome is a function of the pattern and the text alone.
pub uninterp spec fn regex_match(pattern: Seq<char>, text: Seq<char>) -> bool;

/// Whether `pattern` compiles under the default configuration. Compilation
/// errs exactly for an invalid pattern or one whose compiled form exceeds
/// the default size limit — a function of the pattern alone.
pub uninterp spec fn regex_compiles(pattern: Seq<char>) -> bool;

/// Relies on regex::Regex::new: compiles `pat`, or reports an error exactly
/// when the pattern is invalid or exceeds the default size limit, which
/// depends on the pattern alone.
#[verifier::external_body]
fn regex_new(pat: &str) -> (r: Result<regex::Regex, regex::Error>)
    ensures
        r is Ok <==> regex_compiles(pat@),
        r is Ok ==> regex_pattern(r->Ok_0) == pat@,
{
    regex::Regex::new(pat)
}

/// Relies on regex::Regex::is_match: an unanchored search that reports
/// whether the regex matches anywhere in the haystack.
#[verifier::external_body]
fn regex_is_match(re: &regex::Regex, text: &str) -> (r: bool)
    ensures
        r == regex_match(regex_pattern(*re), text@),
{
    re.is_match(text)
}

/// Relies on regex::Regex's Clone: a clone shares the compiled program of
/// the same pattern.
pub assume_specification[ <regex::Regex as Clone>::clone ](re: &regex::Regex) -> (r: regex::Regex)
    ensures
        regex_pattern(r) == regex_pattern(*re),
;

/// A regular expression compiled once and shared by reference among all the
/// predicate evaluations that need it, together with the pattern it was
/// built from.
pub struct Matcher {
    re: regex::Regex,
    pattern: String,
}

impl Matcher {
    /// The pattern this matcher was compiled from.
    pub closed spec fn pattern_view(self) -> Seq<char> {
        self.pattern@
    }

    /// The compiled regex accepts exactly the language of the recorded
    /// pattern.
    pub closed spec fn wf(self) -> bool {
        regex_pattern(self.re) == self.pattern@
    }

    /// Compiles a pattern, succeeding exactly when the regex engine accepts
    /// it and reporting a malformed one as a predicate error.
    pub fn compile(pat: &str) -> (r: Result<Matcher, QueryError>)
        ensures
            r is Ok <==> regex_compiles(pat@),
            r is Ok ==> r->Ok_0.wf() && r->Ok_0.pattern_view() == pat@,
            r is Err ==> r->Err_0 == QueryError::Predicate,
    {
        match regex_new(pat) {
            Ok(re) => Ok(Matcher { re, pattern: String::from_str(pat) }),
            Err(_) => Err(QueryError::Predicate),
        }
    }

    /// A second handle on the same compiled regex, for a pipeline stage of
    /// its own.
    pub fn duplicate(&self) -> (r: Matcher)
        requires
            self.wf(),
        ensures
            r.wf(),
            r.pattern_view() == self.pattern_view(),
    {
        Matcher { re: self.re.clone(), pattern: self.pattern.clone() }
    }

    /// Unanchored search for this matcher's pattern anywhere in `text`.
    pub fn is_match(&self, text: &str) -> (r: bool)
        requires
            self.wf(),
        ensures
            r == regex_match(self.pattern_view(), text@),
    {
        regex_is_match(&self.re, text)
    }
}

} // verus!
