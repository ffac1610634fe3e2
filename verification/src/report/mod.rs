//! The report of an analysis: invariants, their counts by kind, duplicate
//! removal and the Markdown rendering.
pub mod dedup;
pub mod markdown;
pub mod types;

pub use dedup::deduplicate;
pub use markdown::generate_markdown;
pub use types::{Confidence, Evidence, Invariant, InvariantType, Location, Report, Summary};
