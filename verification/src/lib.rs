//! A verified query engine over a read-only corpus of repository metadata.
//!
//! A query is a pipeline over the corpus's project collection: predicate
//! filters, an optional group-by, a stable sort, deterministic top-k or
//! seeded random sampling, and a projection into ordered string records for
//! an external serializer. Every stage carries an exact contract over a
//! ghost model of the corpus, and the engine's laws — filtering yields a
//! satisfying subset and is idempotent, sorting is stable, sampling is a
//! deterministic function of its seed, grouping samples per key — are proved
//! alongside the stages they govern.

pub mod entities;
pub mod error;
pub mod fraction;
pub mod matcher;
pub mod pipeline;
pub mod predicate;
pub mod queries;
pub mod render;
pub mod sample;
pub mod seq_facts;
pub mod sort;
pub mod time;

pub use entities::{Commit, FilePath, Language, Project, User, language_name};
pub use error::QueryError;
pub use fraction::Fraction;
pub use fraction::ratio_at_least;
pub use matcher::Matcher;
pub use render::Table;
pub use queries::{query1, query2, query3, query4, query5, query6, query7, query8, query9,
    query10, query11, query12, query13, query14, query15};
