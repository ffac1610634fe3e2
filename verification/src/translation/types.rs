//! The settings of the translation pipeline, the programs it works on, and
//! the plain parts of its results.
use vstd::prelude::*;
use crate::dup::{views, Dup};

verus! {

/// Settings of the translation pipeline.
#[derive(Debug, Clone)]
pub struct TranslationConfig {
    /// Attempts before a translation counts as failed
    pub max_retries: usize,
    /// Longer sources are skipped
    pub max_lines: usize,
    /// Whether to look for design patterns in successful translations
    pub analyze_patterns: bool,
    /// Path of the cando2 tool, relative to the runner directory
    pub cando2_path: String,
    /// Only check that the build succeeds
    pub skip_tests: bool,
}

impl Default for TranslationConfig {
    /// Five attempts, sources up to 1000 lines, no pattern analysis, the
    /// tool four directories up, tests run.
    fn default() -> (res: Self)
        ensures
            res.max_retries == 5,
            res.max_lines == 1000,
            !res.analyze_patterns,
            res.cando2_path@ == "../../../../tools/cando2"@,
            !res.skip_tests,
    {
        TranslationConfig {
            max_retries: 5,
            max_lines: 1000,
            analyze_patterns: false,
            cando2_path: String::from_str("../../../../tools/cando2"),
            skip_tests: false,
        }
    }
}

/// The language of the source to translate.
#[derive(Debug, Clone, Copy, PartialEq, Eq, Structural)]
pub enum SourceType {
    /// C2Rust output
    Rust,
    /// C source
    C,
}

/// What the translated program is.
#[derive(Debug, Clone, Copy, PartialEq, Eq, Structural)]
pub enum ProgramType {
    /// A library tested through its FFI exports
    Library,
    /// An executable tested through stdin, stdout and its exit code
    Executable,
}

/// A program found for translation.
#[derive(Debug, Clone)]
pub struct ProgramInfo {
    /// The program's directory name
    pub name: String,
    /// The collection it belongs to (its parent directory's name)
    pub collection: String,
    pub path: String,
    /// Where its source to translate is
    pub translated_rust_path: String,
    /// What the tests are pointed at
    pub test_swap_path: String,
    pub runner_path: Option<String>,
    pub test_vectors_path: String,
    pub source_type: SourceType,
    pub program_type: ProgramType,
}

/// The outcome of one program's translation.
#[derive(Debug, Clone, Copy, PartialEq, Eq, Structural)]
pub enum ProgramStatus {
    Success,
    Failed,
    Skipped,
}

/// What running the test vectors gave.
#[derive(Debug, Clone)]
pub struct TestVectorResults {
    pub total: usize,
    pub passed: usize,
    pub failed: usize,
    pub failures: Vec<String>,
}

/// How many invariants of which kinds the design-pattern analysis found.
#[derive(Debug, Clone, Copy, PartialEq, Eq, Structural)]
pub struct DesignPatternMetrics {
    pub invariants_found: usize,
    pub state_machine: usize,
    pub linear_type: usize,
    pub ownership: usize,
}

} // verus!
