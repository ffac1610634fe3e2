//! Responses of a model and the choice of provider.
use vstd::prelude::*;
use crate::text::{seq_starts_with, starts_with_str, to_chars};

verus! {

/// A model's answer with its token usage.
#[derive(Debug, Clone)]
pub struct LlmResponse {
    pub content: String,
    pub tokens_used: usize,
    pub prompt_tokens: usize,
    pub completion_tokens: usize,
    pub cached_tokens: usize,
    pub reasoning_tokens: usize,
}

/// The services a client can be made for.
#[derive(Debug, Clone, Copy, PartialEq, Eq, Structural)]
pub enum Provider {
    Anthropic,
    OpenAI,
}

/// The provider a name selects: `anthropic`, and OpenAI for any other name.
pub open spec fn provider_named(name: Seq<char>) -> Provider {
    if name == "anthropic"@ {
        Provider::Anthropic
    } else {
        Provider::OpenAI
    }
}

/// The provider a name selects.
pub fn provider_of(name: &str) -> (res: Provider)
    ensures
        res == provider_named(name@),
{
    if crate::text::str_eq(name, "anthropic") {
        Provider::Anthropic
    } else {
        Provider::OpenAI
    }
}

/// The model does not take a temperature: its name starts with `o1`, `o3`,
/// `o4` or `gpt-5`.
pub open spec fn rejects_temperature(model: Seq<char>) -> bool {
    seq_starts_with(model, "o1"@) || seq_starts_with(model, "o3"@) || seq_starts_with(model, "o4"@)
        || seq_starts_with(model, "gpt-5"@)
}

/// Whether an OpenAI model is known to reject a custom temperature.
pub fn model_rejects_temperature(model: &str) -> (res: bool)
    ensures
        res == rejects_temperature(model@),
{
    let m = to_chars(model);
    starts_with_str(m.as_slice(), "o1") || starts_with_str(m.as_slice(), "o3") || starts_with_str(
        m.as_slice(),
        "o4",
    ) || starts_with_str(m.as_slice(), "gpt-5")
}

impl LlmResponse {
    /// A response from Anthropic's usage figures: the tokens used are the
    /// input and output tokens, the cached ones those read from and written
    /// to the cache; there are no reasoning tokens.
    pub fn from_anthropic_usage(
        content: String,
        input_tokens: usize,
        output_tokens: usize,
        cache_read_input_tokens: usize,
        cache_creation_input_tokens: usize,
    ) -> (res: LlmResponse)
        requires
            input_tokens + output_tokens <= usize::MAX,
            cache_read_input_tokens + cache_creation_input_tokens <= usize::MAX,
        ensures
            res.content@ == content@,
            res.tokens_used == input_tokens + output_tokens,
            res.prompt_tokens == input_tokens,
            res.completion_tokens == output_tokens,
            res.cached_tokens == cache_read_input_tokens + cache_creation_input_tokens,
            res.reasoning_tokens == 0,
    {
        LlmResponse {
            content,
            tokens_used: input_tokens + output_tokens,
            prompt_tokens: input_tokens,
            completion_tokens: output_tokens,
            cached_tokens: cache_read_input_tokens + cache_creation_input_tokens,
            reasoning_tokens: 0,
        }
    }
}

} // verus!
