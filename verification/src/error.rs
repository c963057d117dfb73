use vstd::prelude::*;

verus! {

/// Failure taxonomy of the query engine.
///
/// - `Corpus`: the corpus snapshot or one of its entities cannot be resolved.
/// - `Predicate`: a predicate is malformed (e.g. its regular expression does
///   not compile).
/// - `Aggregation`: an aggregate was built from out-of-domain operands
///   (a negative or zero threshold denominator).
/// - `Serialization`: the output destination rejected the result.
#[derive(Clone, Copy, Debug, PartialEq, Eq, Structural)]
pub enum QueryError {
    Corpus,
    Predicate,
    Aggregation,
    Serialization,
}

} // verus!
