//! Translating C2Rust output or C code into idiomatic Rust with a model:
//! the settings, the programs found, the prompts, the feedback after a
//! failed attempt, and the reading of test and clippy output.
pub mod discovery;
pub mod feedback;
pub mod manifest;
pub mod metrics;
pub mod patterns;
pub mod pipeline;
pub mod report;
pub mod runner;
pub mod sources;
pub mod translator;
pub mod types;

pub use feedback::FeedbackFormatter;
pub use metrics::ClippyAnalyzer;
pub use report::{TranslationReport, TranslationResult};
pub use runner::TestRunner;
pub use translator::Translator;
pub use types::{
    DesignPatternMetrics, ProgramInfo, ProgramStatus, ProgramType, SourceType, TestVectorResults,
    TranslationConfig,
};
