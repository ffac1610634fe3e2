//! Counting the tokens that model requests use.
use vstd::prelude::*;
use crate::llm::types::LlmResponse;

verus! {

/// `a + b` wrapping around at the top of `u64`, as an atomic counter adds.
pub open spec fn wrapped_add(a: u64, b: u64) -> u64 {
    if a + b > u64::MAX {
        (a + b - u64::MAX - 1) as u64
    } else {
        (a + b) as u64
    }
}

/// The token counters at one moment.
#[derive(Debug, Clone, Copy, PartialEq, Eq, Structural)]
pub struct TokenStatsSnapshot {
    pub input_tokens: u64,
    pub cached_tokens: u64,
    pub output_tokens: u64,
    pub reasoning_tokens: u64,
    pub total_tokens: u64,
}

/// Token usage counters, by kind of token.
#[derive(Debug)]
pub struct TokenStats {
    pub input_tokens: u64,
    pub cached_tokens: u64,
    pub output_tokens: u64,
    pub reasoning_tokens: u64,
    pub total_tokens: u64,
}

fn add_wrapping(a: u64, b: u64) -> (res: u64)
    ensures
        res == wrapped_add(a, b),
{
    a.wrapping_add(b)
}

impl TokenStats {
    /// All counters at zero.
    pub fn new() -> (res: Self)
        ensures
            res.input_tokens == 0 && res.cached_tokens == 0 && res.output_tokens == 0
                && res.reasoning_tokens == 0 && res.total_tokens == 0,
    {
        TokenStats {
            input_tokens: 0,
            cached_tokens: 0,
            output_tokens: 0,
            reasoning_tokens: 0,
            total_tokens: 0,
        }
    }

    /// Adds the usage of one response to the counters.
    pub fn record(&mut self, response: &LlmResponse)
        ensures
            final(self).input_tokens == wrapped_add(old(self).input_tokens, response.prompt_tokens as u64),
            final(self).cached_tokens == wrapped_add(old(self).cached_tokens, response.cached_tokens as u64),
            final(self).output_tokens == wrapped_add(old(self).output_tokens, response.completion_tokens as u64),
            final(self).reasoning_tokens == wrapped_add(old(self).reasoning_tokens, response.reasoning_tokens as u64),
            final(self).total_tokens == wrapped_add(old(self).total_tokens, response.tokens_used as u64),
    {
        self.input_tokens = add_wrapping(self.input_tokens, response.prompt_tokens as u64);
        self.cached_tokens = add_wrapping(self.cached_tokens, response.cached_tokens as u64);
        self.output_tokens = add_wrapping(self.output_tokens, response.completion_tokens as u64);
        self.reasoning_tokens = add_wrapping(self.reasoning_tokens, response.reasoning_tokens as u64);
        self.total_tokens = add_wrapping(self.total_tokens, response.tokens_used as u64);
    }

    /// The counters as they are now.
    pub fn snapshot(&self) -> (res: TokenStatsSnapshot)
        ensures
            res.input_tokens == self.input_tokens,
            res.cached_tokens == self.cached_tokens,
            res.output_tokens == self.output_tokens,
            res.reasoning_tokens == self.reasoning_tokens,
            res.total_tokens == self.total_tokens,
    {
        TokenStatsSnapshot {
            input_tokens: self.input_tokens,
            cached_tokens: self.cached_tokens,
            output_tokens: self.output_tokens,
            reasoning_tokens: self.reasoning_tokens,
            total_tokens: self.total_tokens,
        }
    }
}

} // verus!
