use design_patterns_agent::llm::retry::{
    checked_delay, compute_delay, count_rate_limit, is_rate_limit, is_retryable, parse_retry_after, should_retry,
    Delay,
};
use design_patterns_agent::llm::tracking::TokenStats;
use design_patterns_agent::llm::types::{model_rejects_temperature, provider_of, LlmResponse, Provider};

#[test]
fn test_is_retryable() {
    assert!(is_retryable("Anthropic API error (429): rate limit exceeded"));
    assert!(is_retryable("HTTP 529: overloaded"));
    assert!(is_retryable("connection reset by peer"));
    assert!(is_retryable("request timeout"));
    assert!(is_retryable("502 Bad Gateway"));
    assert!(!is_retryable("invalid API key"));
    assert!(!is_retryable("malformed request (400)"));
    assert!(!is_retryable("No response content from OpenAI"));
}

#[test]
fn test_parse_retry_after() {
    assert_eq!(parse_retry_after("Rate limited. Retry after 30 seconds."), Some(30));
    assert_eq!(parse_retry_after("retry-after: 60"), Some(60));
    assert_eq!(parse_retry_after("try again in 15 seconds"), Some(15));
    assert_eq!(parse_retry_after("generic error"), None);
}

#[test]
fn retry_after_skips_a_phrase_without_number() {
    assert_eq!(parse_retry_after("retry after soon; try again in 7s"), Some(7));
    assert_eq!(parse_retry_after("retry after 99999999999999999999999"), None);
}

#[test]
fn delay_follows_stated_wait_or_backoff() {
    assert_eq!(compute_delay(2000, 0, 0, "retry after 30"), Delay::Seconds(31));
    // 2000 ms * 2^1 * (1 + 1) = 8000; jitter range 2000; jitter (7 + 13) % 4000 = 20
    assert_eq!(compute_delay(2000, 1, 1, "503 unavailable"), Delay::Millis(8000 - 2000 + 20));
    // capped at five minutes
    assert_eq!(compute_delay(2000, 10, 5, "503"), Delay::Millis(300000));
    assert_eq!(compute_delay(0, 3, 0, "timeout"), Delay::Millis(0));
}

#[test]
fn retry_decisions() {
    assert!(should_retry("429 rate limit", 0, 3));
    assert!(!should_retry("429 rate limit", 3, 3));
    assert!(!should_retry("invalid API key (401)", 0, 3));
    assert!(is_rate_limit("HTTP 529"));
    assert!(!is_rate_limit("503 service unavailable"));
    assert_eq!(count_rate_limit(2, "Too Many Requests"), 3);
    assert_eq!(count_rate_limit(2, "timeout"), 2);
    assert_eq!(count_rate_limit(u64::MAX, "429"), 0);
}

fn response(total: usize, prompt: usize, completion: usize, cached: usize, reasoning: usize) -> LlmResponse {
    LlmResponse {
        content: "[]".to_string(),
        tokens_used: total,
        prompt_tokens: prompt,
        completion_tokens: completion,
        cached_tokens: cached,
        reasoning_tokens: reasoning,
    }
}

#[test]
fn test_token_tracking() {
    let mut stats = TokenStats::new();
    stats.record(&response(150, 100, 50, 20, 10));
    assert_eq!(stats.total_tokens, 150);
    assert_eq!(stats.input_tokens, 100);
    assert_eq!(stats.output_tokens, 50);
    assert_eq!(stats.cached_tokens, 20);
    assert_eq!(stats.reasoning_tokens, 10);
    stats.record(&response(150, 100, 50, 20, 10));
    assert_eq!(stats.total_tokens, 300);
    assert_eq!(stats.input_tokens, 200);
    assert_eq!(stats.output_tokens, 100);
    let snap = stats.snapshot();
    assert_eq!(snap.total_tokens, 300);
    assert_eq!(snap.cached_tokens, 40);
}

#[test]
fn providers_and_models() {
    assert_eq!(provider_of("anthropic"), Provider::Anthropic);
    assert_eq!(provider_of("openai"), Provider::OpenAI);
    assert_eq!(provider_of("unknown"), Provider::OpenAI);
    assert!(model_rejects_temperature("o1-mini"));
    assert!(model_rejects_temperature("gpt-5.2"));
    assert!(!model_rejects_temperature("gpt-4o"));
    let r = LlmResponse::from_anthropic_usage("x".to_string(), 10, 5, 2, 3);
    assert_eq!(r.tokens_used, 15);
    assert_eq!(r.cached_tokens, 5);
    assert_eq!(r.reasoning_tokens, 0);
}

#[test]
fn checked_delay_refuses_overflow() {
    assert_eq!(checked_delay(2000, 1, 1, "503 unavailable"), Some(Delay::Millis(8000 - 2000 + 20)));
    assert_eq!(checked_delay(2000, 0, 0, "retry after 30"), Some(Delay::Seconds(31)));
    assert_eq!(checked_delay(2000, 64, 0, "503"), None);
    assert_eq!(checked_delay(u64::MAX, 1, 0, "503"), None);
    assert_eq!(checked_delay(1, 0, u64::MAX, "503"), None);
}

#[test]
fn backoff_never_shrinks_with_attempts() {
    let mut last = 0;
    for attempt in 0..12 {
        match compute_delay(1000, attempt, 2, "503 unavailable") {
            Delay::Millis(ms) => {
                assert!(ms >= last);
                last = ms;
            },
            Delay::Seconds(_) => panic!("no stated wait"),
        }
    }
    assert_eq!(last, 300000);
}
