use design_patterns_agent::agent::progress::{load_checkpoint, ProgressEntry, ProgressState};
use design_patterns_agent::agent::run::{
    chunk_admitted, chunk_tokens, default_validation_model, infer_provider, is_priority_chunk, run_dir_name,
};
use design_patterns_agent::cli::config::{
    report_extension, resolve_api_key, search_mode_of, DetectionConfig, ExecutionConfig,
    ExplorationConfig, InvariantType, MinConfidence, OutputFormat, SearchMode,
};

fn entry(module: &str, status: &str) -> ProgressEntry {
    ProgressEntry {
        module_name: module.to_string(),
        status: status.to_string(),
        invariants_found: 0,
        tokens_used: 0,
        timestamp: "2025-01-01T00:00:00Z".to_string(),
        error: None,
    }
}

#[test]
fn test_progress_tracker_new() {
    let tracker = ProgressState::new(10, 0);
    assert_eq!(tracker.total_chunks, 10);
    assert!(!tracker.budget_exceeded());
}

#[test]
fn test_record_and_check_completed() {
    let mut tracker = ProgressState::new(10, 0);
    assert!(!tracker.is_completed("test::mod"));
    tracker.record_result("test::mod", "completed", 2, 100);
    assert!(tracker.is_completed("test::mod"));
    assert_eq!(tracker.completed_count, 1);
    assert_eq!(tracker.invariants_found, 2);
}

#[test]
fn test_budget_exceeded() {
    let mut tracker = ProgressState::new(10, 500);
    assert!(!tracker.budget_exceeded());
    tracker.record_result("a", "completed", 0, 300);
    assert!(!tracker.budget_exceeded());
    tracker.record_result("b", "completed", 0, 250);
    assert!(tracker.budget_exceeded());
}

#[test]
fn test_load_checkpoint_skips_completed_retries_failed() {
    let entries = vec![entry("mod_a", "completed"), entry("mod_b", "failed"), entry("mod_a", "completed")];
    let completed = load_checkpoint(&entries);
    assert_eq!(completed, vec!["mod_a".to_string()]);
    let mut tracker = ProgressState::new(3, 0);
    tracker.restore_from_checkpoint(completed);
    assert!(tracker.is_completed("mod_a"));
    assert!(!tracker.is_completed("mod_b"));
    assert_eq!(tracker.completed_count, 1);
}

#[test]
fn failures_count_apart_from_completions() {
    let mut tracker = ProgressState::new(2, 0);
    tracker.record_result("x", "failed", 5, 7);
    assert_eq!(tracker.failed_count, 1);
    assert_eq!(tracker.completed_count, 0);
    assert_eq!(tracker.invariants_found, 0);
    assert_eq!(tracker.total_tokens, 7);
    assert!(tracker.is_completed("x"));
}

#[test]
fn run_decisions() {
    assert!(is_priority_chunk("std::sync::mutex", &vec!["sync".to_string()]));
    assert!(!is_priority_chunk("std::fmt", &vec!["sync".to_string()]));
    assert_eq!(chunk_tokens(100, 250), 150);
    assert_eq!(chunk_tokens(250, 100), 0);
    assert_eq!(
        run_dir_name("org/model.v1:latest", "20250101_120000", SearchMode::Exhaustive),
        "org_model_v1_latest_20250101_120000_bfs"
    );
    assert_eq!(run_dir_name("m", "s", SearchMode::Semantic), "m_s_ss");
}

#[test]
fn config_defaults() {
    let e = ExecutionConfig::default();
    assert_eq!(e.concurrency, 1);
    assert_eq!(e.max_retries, 5);
    assert_eq!(e.retry_base_delay, 2);
    assert_eq!(e.token_budget, 0);
    assert!(e.resume_path.is_none());
    let d = DetectionConfig::all_kinds();
    assert_eq!(d.focus.len(), 5);
    assert_eq!(d.focus[0], InvariantType::TemporalOrdering);
    assert_eq!(d.min_confidence, MinConfidence::Medium);
    assert_eq!(ExplorationConfig::from_limits(10, 50).context_window_tokens, 4000);
    assert_eq!(search_mode_of("semantic"), SearchMode::Semantic);
    assert_eq!(search_mode_of("anything"), SearchMode::Exhaustive);
    assert_eq!(report_extension(OutputFormat::Json), "json");
    assert_eq!(report_extension(OutputFormat::Markdown), "md");
}

#[test]
fn api_key_resolution() {
    assert_eq!(resolve_api_key(Some("k".to_string()), "openai", None).unwrap(), "k");
    assert_eq!(resolve_api_key(None, "anthropic", Some("a".to_string())).unwrap(), "a");
    assert_eq!(
        resolve_api_key(None, "anthropic", None).unwrap_err(),
        "API key not provided. Set ANTHROPIC_API_KEY or use --api-key"
    );
    assert_eq!(
        resolve_api_key(None, "openai", Some("ignored".to_string())).unwrap_err(),
        "API key not provided. Set OPENAI_API_KEY or use --api-key"
    );
}

#[test]
fn priority_chunks_bypass_spent_budget() {
    let prefixes = vec!["sync".to_string()];
    let mut state = ProgressState::new(3, 100);
    assert!(chunk_admitted("crate::io", &prefixes, &state));
    state.record_result("crate::fs", "completed", 1, 150);
    assert!(state.budget_exceeded());
    assert!(!chunk_admitted("crate::io", &prefixes, &state));
    assert!(chunk_admitted("std::sync::mutex", &prefixes, &state));
}

#[test]
fn validation_model_and_provider_follow_the_model_name() {
    assert_eq!(default_validation_model("anthropic", "my-model"), "my-model");
    assert_eq!(default_validation_model("openai", "gpt-4o"), "gpt-4o-mini");
    assert_eq!(infer_provider("gpt-4o-mini", "anthropic"), "openai");
    assert_eq!(infer_provider("o3-mini", "anthropic"), "openai");
    assert_eq!(infer_provider("llama-3", "anthropic"), "anthropic");
}
