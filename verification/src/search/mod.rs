//! Semantic search for likely places of latent invariants: the queries
//! asked, and the merging of the line ranges they hit in one file.
pub mod chunks;
pub mod queries;
pub mod regions;
pub mod results;
