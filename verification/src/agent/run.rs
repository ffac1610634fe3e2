//! Decisions of an analysis run that stand apart from its I/O.
use vstd::prelude::*;
use crate::agent::progress::{budget_spent, ProgressState};
use crate::cli::config::SearchMode;
use crate::text::{any_contains, contains_str, to_chars, from_chars, seq_starts_with, starts_with_str, str_eq};

verus! {

/// A chunk is a priority chunk when its module path contains one of the
/// priority prefixes.
pub open spec fn is_priority(module_name: Seq<char>, prefixes: Seq<Seq<char>>) -> bool {
    any_contains(module_name, prefixes)
}

/// Whether a chunk's module path contains one of the priority prefixes.
pub fn is_priority_chunk(module_name: &str, prefixes: &Vec<String>) -> (res: bool)
    ensures
        res == is_priority(module_name@, crate::dup::views(prefixes@)),
{
    let m = to_chars(module_name);
    let mut i: usize = 0;
    while i < prefixes.len()
        invariant
            i <= prefixes@.len(),
            m@ == module_name@,
            forall|k: int| 0 <= k < i ==> !crate::text::seq_contains(m@, #[trigger] crate::dup::views(prefixes@)[k]),
        decreases prefixes@.len() - i,
    {
        if contains_str(m.as_slice(), prefixes[i].as_str()) {
            assert(crate::text::seq_contains(m@, crate::dup::views(prefixes@)[i as int]));
            return true;
        }
        i += 1;
    }
    false
}

/// Whether a chunk is analyzed, once its turn comes: always for a priority
/// chunk, for another only while the token budget is not spent.
pub fn chunk_admitted(module_name: &str, prefixes: &Vec<String>, progress: &ProgressState) -> (res: bool)
    ensures
        res == (is_priority(module_name@, crate::dup::views(prefixes@)) || !budget_spent(
            progress.token_budget,
            progress.total_tokens,
        )),
{
    is_priority_chunk(module_name, prefixes) || !progress.budget_exceeded()
}

/// The tokens one chunk used: the counter after it less the counter
/// before, at least zero.
pub fn chunk_tokens(before: u64, after: u64) -> (res: u64)
    ensures
        res == if after >= before {
            (after - before) as u64
        } else {
            0
        },
{
    after.saturating_sub(before)
}

/// A model name fit for a directory name: `/`, `.` and `:` become `_`.
pub open spec fn dir_safe(model: Seq<char>) -> Seq<char> {
    model.map_values(|c: char| if c == '/' || c == '.' || c == ':' { '_' } else { c })
}

/// The suffix of a run's directory by search mode: `bfs` for exhaustive
/// exploration, `ss` for semantic search.
pub open spec fn mode_suffix(mode: SearchMode) -> Seq<char> {
    match mode {
        SearchMode::Exhaustive => "bfs"@,
        SearchMode::Semantic => "ss"@,
    }
}

/// The name of a run's directory: the model's name made safe, `_`, the
/// start time (`YYYYMMDD_HHMMSS`), `_`, and the search mode's suffix.
pub fn run_dir_name(model: &str, stamp: &str, mode: SearchMode) -> (res: String)
    ensures
        res@ == dir_safe(model@) + "_"@ + stamp@ + "_"@ + mode_suffix(mode),
{
    let m = to_chars(model);
    let mut out: Vec<char> = Vec::new();
    let mut i: usize = 0;
    while i < m.len()
        invariant
            i <= m@.len(),
            m@ == model@,
            out@ == dir_safe(model@).take(i as int),
        decreases m@.len() - i,
    {
        let c = m[i];
        let d = if c == '/' || c == '.' || c == ':' {
            '_'
        } else {
            c
        };
        out.push(d);
        proof {
            assert(dir_safe(model@).take(i + 1) =~= dir_safe(model@).take(i as int).push(d));
        }
        i += 1;
    }
    assert(out@ =~= dir_safe(model@));
    let mut s = from_chars(out.as_slice());
    crate::text::push_str(&mut s, "_");
    crate::text::push_str(&mut s, stamp);
    crate::text::push_str(&mut s, "_");
    match mode {
        SearchMode::Exhaustive => crate::text::push_str(&mut s, "bfs"),
        SearchMode::Semantic => crate::text::push_str(&mut s, "ss"),
    }
    s
}

/// The provider of a model, by its name: OpenAI for the `gpt-`, `o1`, `o3`
/// and `o4` families, else the given default.
pub open spec fn provider_of(model: Seq<char>, default: Seq<char>) -> Seq<char> {
    if seq_starts_with(model, "gpt-"@) || seq_starts_with(model, "o1"@) || seq_starts_with(model, "o3"@)
        || seq_starts_with(model, "o4"@) {
        "openai"@
    } else {
        default
    }
}

/// Infers the provider of a model from its name, falling back to the given
/// default.
pub fn infer_provider(model: &str, default: &str) -> (res: String)
    ensures
        res@ == provider_of(model@, default@),
{
    let m = to_chars(model);
    if starts_with_str(m.as_slice(), "gpt-") || starts_with_str(m.as_slice(), "o1") || starts_with_str(
        m.as_slice(),
        "o3",
    ) || starts_with_str(m.as_slice(), "o4") {
        String::from_str("openai")
    } else {
        String::from_str(default)
    }
}

/// The model that validates findings when none is set: the run's own model
/// for Anthropic, else a small OpenAI model.
pub open spec fn validation_model_for(provider: Seq<char>, run_model: Seq<char>) -> Seq<char> {
    if provider == "anthropic"@ {
        run_model
    } else {
        "gpt-4o-mini"@
    }
}

/// The default model for validation, given the provider and the run's model.
pub fn default_validation_model(provider: &str, run_model: &str) -> (res: String)
    ensures
        res@ == validation_model_for(provider@, run_model@),
{
    if str_eq(provider, "anthropic") {
        String::from_str(run_model)
    } else {
        String::from_str("gpt-4o-mini")
    }
}

} // verus!
