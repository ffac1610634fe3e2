//! Navigating a codebase: module-level analysis chunks, their priorities,
//! and the breadth-first exploration of the module graph.
pub mod chunk;
pub mod context;
pub mod coverage;
pub mod explorer;
pub mod navigator;
pub mod priority;

pub use chunk::AnalysisChunk;
pub use context::build_chunks;
pub use explorer::Explorer;
pub use navigator::Navigator;
pub use priority::prioritize_chunks;
