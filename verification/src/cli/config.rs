//! Settings of an analysis run: the model, how far to explore, what to
//! look for, and how to execute; with the defaults the settings file and
//! the command line fall back on.
use vstd::prelude::*;
use crate::dup::opt_view;
use crate::text::str_eq;

verus! {

/// How a run executes its model requests.
#[derive(Debug, Clone)]
pub struct ExecutionConfig {
    pub concurrency: usize,
    /// Token budget, 0 for none
    pub token_budget: usize,
    /// A progress file to resume from
    pub resume_path: Option<String>,
    pub priority_modules: Vec<String>,
    pub multi_crate: bool,
    pub max_retries: u32,
    /// Base delay of the back-off, in seconds
    pub retry_base_delay: u64,
}

pub fn default_concurrency() -> (res: usize)
    ensures
        res == 1,
{
    1
}

pub fn default_max_retries() -> (res: u32)
    ensures
        res == 5,
{
    5
}

pub fn default_retry_base_delay() -> (res: u64)
    ensures
        res == 2,
{
    2
}

impl Default for ExecutionConfig {
    /// One request at a time, no budget, no resume file, no priority
    /// modules, one crate, five retries from a two-second base delay.
    fn default() -> (res: Self)
        ensures
            res.concurrency == 1,
            res.token_budget == 0,
            res.resume_path is None,
            res.priority_modules@.len() == 0,
            !res.multi_crate,
            res.max_retries == 5,
            res.retry_base_delay == 2,
    {
        ExecutionConfig {
            concurrency: default_concurrency(),
            token_budget: 0,
            resume_path: None,
            priority_modules: Vec::new(),
            multi_crate: false,
            max_retries: default_max_retries(),
            retry_base_delay: default_retry_base_delay(),
        }
    }
}

/// How the code to analyze is found.
#[derive(Debug, Clone, Copy, PartialEq, Eq, Structural)]
pub enum SearchMode {
    /// Parse every module
    Exhaustive,
    /// Ask a semantic code search for likely places
    Semantic,
}

/// The search mode a name selects: `semantic`, and exhaustive for any
/// other name.
pub open spec fn search_mode_named(name: Seq<char>) -> SearchMode {
    if name == "semantic"@ {
        SearchMode::Semantic
    } else {
        SearchMode::Exhaustive
    }
}

/// The search mode a name selects.
pub fn search_mode_of(name: &str) -> (res: SearchMode)
    ensures
        res == search_mode_named(name@),
{
    if str_eq(name, "semantic") {
        SearchMode::Semantic
    } else {
        SearchMode::Exhaustive
    }
}

pub fn default_search_mode() -> (res: SearchMode)
    ensures
        res == SearchMode::Exhaustive,
{
    SearchMode::Exhaustive
}

pub fn default_max_results_per_query() -> (res: usize)
    ensures
        res == 20,
{
    20
}

pub fn default_context_lines() -> (res: usize)
    ensures
        res == 30,
{
    30
}

/// The model to ask.
#[derive(Debug, Clone)]
pub struct LlmConfig {
    pub provider: String,
    pub api_key: String,
    pub model: String,
}

/// How far to explore the module tree.
#[derive(Debug, Clone, Copy, PartialEq, Eq, Structural)]
pub struct ExplorationConfig {
    pub max_depth: usize,
    pub max_items_per_module: usize,
    pub context_window_tokens: usize,
}

/// The kinds of invariant a run looks for.
#[derive(Debug, Clone, Copy, PartialEq, Eq, Structural)]
pub enum InvariantType {
    TemporalOrdering,
    ResourceLifecycle,
    StateMachine,
    Precondition,
    Protocol,
}

/// The least confidence an invariant must have to be reported.
#[derive(Debug, Clone, Copy, PartialEq, Eq, Structural)]
pub enum MinConfidence {
    High,
    Medium,
    Low,
}

pub fn default_min_confidence() -> (res: MinConfidence)
    ensures
        res == MinConfidence::Medium,
{
    MinConfidence::Medium
}

/// What a run looks for.
#[derive(Debug, Clone)]
pub struct DetectionConfig {
    pub focus: Vec<InvariantType>,
    pub min_confidence: MinConfidence,
}

/// Every kind of invariant, in their order.
pub open spec fn all_kinds() -> Seq<InvariantType> {
    seq![
        InvariantType::TemporalOrdering,
        InvariantType::ResourceLifecycle,
        InvariantType::StateMachine,
        InvariantType::Precondition,
        InvariantType::Protocol,
    ]
}

impl DetectionConfig {
    /// What a run set up from the command line looks for: every kind, at
    /// medium confidence or more.
    pub fn all_kinds() -> (res: DetectionConfig)
        ensures
            res.focus@ == all_kinds(),
            res.min_confidence == MinConfidence::Medium,
    {
        let focus = vec![
            InvariantType::TemporalOrdering,
            InvariantType::ResourceLifecycle,
            InvariantType::StateMachine,
            InvariantType::Precondition,
            InvariantType::Protocol,
        ];
        assert(focus@ =~= all_kinds());
        DetectionConfig { focus, min_confidence: MinConfidence::Medium }
    }
}

impl ExplorationConfig {
    /// The exploration a run set up from the command line uses: a context
    /// window of 4000 tokens.
    pub fn from_limits(max_depth: usize, max_items_per_module: usize) -> (res: ExplorationConfig)
        ensures
            res.max_depth == max_depth,
            res.max_items_per_module == max_items_per_module,
            res.context_window_tokens == 4000,
    {
        ExplorationConfig { max_depth, max_items_per_module, context_window_tokens: 4000 }
    }
}

/// The environment variable that holds the key of a provider.
pub open spec fn key_variable(provider: Seq<char>) -> Seq<char> {
    if provider == "anthropic"@ {
        "ANTHROPIC_API_KEY"@
    } else {
        "OPENAI_API_KEY"@
    }
}

/// The environment variable that holds the key of a provider.
pub fn key_variable_of(provider: &str) -> (res: &'static str)
    ensures
        res@ == key_variable(provider@),
{
    if str_eq(provider, "anthropic") {
        "ANTHROPIC_API_KEY"
    } else {
        "OPENAI_API_KEY"
    }
}

/// The message when no key was given.
pub open spec fn missing_key_message(provider: Seq<char>) -> Seq<char> {
    "API key not provided. Set "@ + key_variable(provider) + " or use --api-key"@
}

/// The API key of a run: the one given (on the command line, or in
/// `OPENAI_API_KEY`), else for Anthropic the value of `ANTHROPIC_API_KEY`
/// (`anthropic_env`), else an error that names the variable to set.
pub fn resolve_api_key(
    given: Option<String>,
    provider: &str,
    anthropic_env: Option<String>,
) -> (res: Result<String, String>)
    ensures
        match opt_view(given) {
            Some(k) => res matches Ok(v) && v@ == k,
            None => if provider@ == "anthropic"@ && anthropic_env is Some {
                res matches Ok(v) && v@ == anthropic_env->0@
            } else {
                res matches Err(e) && e@ == missing_key_message(provider@)
            },
        },
{
    match given {
        Some(k) => Ok(k),
        None => {
            if str_eq(provider, "anthropic") {
                match anthropic_env {
                    Some(k) => {
                        return Ok(k);
                    },
                    None => {},
                }
            }
            let mut msg = String::from_str("API key not provided. Set ");
            crate::text::push_str(&mut msg, key_variable_of(provider));
            crate::text::push_str(&mut msg, " or use --api-key");
            Err(msg)
        },
    }
}

/// The formats a report can be written in.
#[derive(Debug, Clone, Copy, PartialEq, Eq, Structural)]
pub enum OutputFormat {
    Markdown,
    Json,
}

/// The file extension of a report format.
pub fn report_extension(format: OutputFormat) -> (res: &'static str)
    ensures
        res@ == match format {
            OutputFormat::Markdown => "md"@,
            OutputFormat::Json => "json"@,
        },
{
    match format {
        OutputFormat::Markdown => "md",
        OutputFormat::Json => "json",
    }
}

/// The commands of the program.
#[derive(Debug, Clone)]
pub enum Command {
    /// Analyze the Rust codebase at a path
    Analyze { path: String },
}

} // verus!
