use design_patterns_agent::translation::feedback::FeedbackFormatter;
use design_patterns_agent::translation::metrics::{ClippyAnalyzer, ClippyDiagnostic, ClippyMessage};
use design_patterns_agent::translation::runner::TestRunner;
use design_patterns_agent::translation::translator::Translator;
use design_patterns_agent::translation::types::{
    ProgramInfo, ProgramType, SourceType, TestVectorResults, TranslationConfig,
};

#[test]
fn test_format_build_error() {
    let formatter = FeedbackFormatter::new();
    let error = "error[E0425]: cannot find value `x` in this scope";
    let feedback = formatter.format_build_error(error);
    assert!(feedback.contains("Build Error"));
    assert!(feedback.contains("E0425"));
    assert!(feedback.contains("compilation errors"));
}

#[test]
fn test_format_test_failures() {
    let formatter = FeedbackFormatter::new();
    let results = TestVectorResults {
        total: 10,
        passed: 7,
        failed: 3,
        failures: vec![
            "Test 2: expected [1,2,3], got [1,2,4]".to_string(),
            "Test 5: assertion failed".to_string(),
        ],
    };
    let feedback = formatter.format_test_failures(&results);
    assert!(feedback.contains("Test Failures"));
    assert!(feedback.contains("3 of 10 tests failed"));
    assert!(feedback.contains("Test 2:"));
}

#[test]
fn test_format_test_error() {
    let formatter = FeedbackFormatter::new();
    let error = "thread 'main' panicked at 'called `Option::unwrap()` on a `None` value'";
    let feedback = formatter.format_test_error(error);
    assert!(feedback.contains("Test Execution Error"));
    assert!(feedback.contains("panicked"));
}

#[test]
fn test_truncate_output() {
    let formatter = FeedbackFormatter::new();
    let short = "Hello";
    assert_eq!(formatter.truncate_output(short, 100), short);
    let long = "a".repeat(200);
    let truncated = formatter.truncate_output(&long, 50);
    assert!(truncated.len() < 200);
    assert!(truncated.contains("truncated"));
    assert_eq!(truncated, format!("{}...\n[Output truncated]", "a".repeat(50)));
}

#[test]
fn test_format_clippy_suggestions() {
    let formatter = FeedbackFormatter::new();
    let empty = formatter.format_clippy_suggestions(&vec![]);
    assert!(empty.contains("No clippy warnings"));
    let warnings = vec![
        "warning: unused variable".to_string(),
        "warning: this function could be const".to_string(),
    ];
    let feedback = formatter.format_clippy_suggestions(&warnings);
    assert!(feedback.contains("Clippy Warnings"));
    assert!(feedback.contains("unused variable"));
}

#[test]
fn clippy_suggestions_are_numbered_and_capped() {
    let formatter = FeedbackFormatter::new();
    let warnings: Vec<String> = (0..12).map(|i| format!("w{}", i)).collect();
    let feedback = formatter.format_clippy_suggestions(&warnings);
    assert!(feedback.starts_with("## Clippy Warnings\n\nThe following warnings were detected:\n\n1. w0\n2. w1\n"));
    assert!(feedback.contains("10. w9\n\n... and 2 more warnings"));
    assert!(!feedback.contains("w10"));
}

#[test]
fn executable_hints_differ() {
    let formatter = FeedbackFormatter::new();
    let lib = formatter.format_build_error_for("e", &ProgramType::Library);
    let exe = formatter.format_build_error_for("e", &ProgramType::Executable);
    assert!(lib.contains("maintaining FFI compatibility"));
    assert!(exe.contains("This is an executable (not a library)."));
}

#[test]
fn test_translation_config_default() {
    let config = TranslationConfig::default();
    assert_eq!(config.max_retries, 5);
    assert_eq!(config.max_lines, 1000);
    assert!(!config.analyze_patterns);
}

fn create_test_program_info() -> ProgramInfo {
    ProgramInfo {
        name: "test_lib".to_string(),
        collection: "test_collection".to_string(),
        path: "/tmp/test".to_string(),
        translated_rust_path: "/tmp/test/translated_rust".to_string(),
        test_swap_path: "/tmp/test/translated_rust".to_string(),
        runner_path: Some("/tmp/test/runner".to_string()),
        test_vectors_path: "/tmp/test/test_vectors".to_string(),
        source_type: SourceType::Rust,
        program_type: ProgramType::Library,
    }
}

#[test]
fn test_parse_cando2_output_all_pass() {
    let runner = TestRunner::new(create_test_program_info(), "/tmp/output".to_string());
    let stdout = "1.json: true\n2.json: true\n3.json: true";
    let result = runner.parse_test_output(stdout, "", 3).unwrap();
    assert_eq!(result.total, 3);
    assert_eq!(result.passed, 3);
    assert_eq!(result.failed, 0);
    assert!(result.failures.is_empty());
}

#[test]
fn test_parse_cando2_output_some_fail() {
    let runner = TestRunner::new(create_test_program_info(), "/tmp/output".to_string());
    let stdout = "1.json: true\n2.json: false\n3.json: true\n4.json: false";
    let result = runner.parse_test_output(stdout, "", 4).unwrap();
    assert_eq!(result.total, 4);
    assert_eq!(result.passed, 2);
    assert_eq!(result.failed, 2);
    assert_eq!(result.failures.len(), 2);
    assert_eq!(result.failures[0], "2.json: false");
}

#[test]
fn test_parse_output_panic() {
    let runner = TestRunner::new(create_test_program_info(), "/tmp/output".to_string());
    let stderr = "thread 'main' panicked at 'index out of bounds'";
    let result = runner.parse_test_output("", stderr, 5).unwrap();
    assert_eq!(result.total, 5);
    assert_eq!(result.passed, 0);
    assert_eq!(result.failed, 5);
    assert_eq!(result.failures, vec!["\nthread 'main' panicked at 'index out of bounds'".to_string()]);
}

#[test]
fn parse_output_without_verdicts_passes_all() {
    let runner = TestRunner::new(create_test_program_info(), "/tmp/output".to_string());
    let result = runner.parse_test_output("all good", "", 4).unwrap();
    assert_eq!(result.passed, 4);
    assert_eq!(result.failed, 0);
}

#[test]
fn test_check_pattern_exact() {
    assert!(TestRunner::check_pattern("hello\n", "hello\n", false));
    assert!(!TestRunner::check_pattern("hello\n", "world\n", false));
}

#[test]
fn test_check_pattern_regex() {
    assert!(TestRunner::check_pattern("abc123", "abc[0-9]+", true));
    assert!(!TestRunner::check_pattern("abcxyz", "abc[0-9]+", true));
}

#[test]
fn check_pattern_invalid_regex_compares_exactly() {
    assert!(TestRunner::check_pattern("a(", "a(", true));
    assert!(!TestRunner::check_pattern("a", "a(", true));
}

#[test]
fn test_count_unsafe_blocks() {
    let analyzer = ClippyAnalyzer::new();
    let source = r#"
fn main() {
    unsafe {
        // something
    }
    let x = unsafe { ptr.read() };
}
"#;
    assert_eq!(analyzer.count_unsafe_blocks(source), 2);
}

#[test]
fn test_count_raw_pointers() {
    let analyzer = ClippyAnalyzer::new();
    let source = "let p: *mut u8 = q as *mut u8; let r: *const i32;";
    assert_eq!(analyzer.count_raw_pointers(source), 4);
}

#[test]
fn clippy_warnings_are_collected() {
    let analyzer = ClippyAnalyzer::new();
    let msgs = vec![
        ClippyMessage {
            reason: "compiler-message".to_string(),
            message: Some(ClippyDiagnostic { level: "warning".to_string(), message: "unused".to_string() }),
        },
        ClippyMessage {
            reason: "compiler-message".to_string(),
            message: Some(ClippyDiagnostic { level: "error".to_string(), message: "bad".to_string() }),
        },
        ClippyMessage { reason: "build-finished".to_string(), message: None },
    ];
    assert_eq!(analyzer.collect_warnings(&msgs), vec!["unused".to_string()]);
}

#[test]
fn test_extract_code_with_rust_block() {
    let translator = Translator::new();
    let response = "Here's the code:\n\n```rust\nfn main() {\n    println!(\"Hello\");\n}\n```\n\nThat's it!";
    let code = translator.extract_code(response).unwrap();
    assert!(code.contains("fn main()"));
    assert!(code.contains("println!"));
}

#[test]
fn test_extract_code_without_block() {
    let translator = Translator::new();
    let response = "fn main() {\n    println!(\"Hello\");\n}";
    let code = translator.extract_code(response).unwrap();
    assert!(code.contains("fn main()"));
}

#[test]
fn extract_code_from_plain_fence() {
    let translator = Translator::new();
    assert_eq!(translator.extract_code("x\n```rs\nlet a = 1;\n```").unwrap(), "let a = 1;");
    assert_eq!(translator.extract_code("  just code  ").unwrap(), "just code");
}

#[test]
fn test_system_prompt_contains_key_requirements() {
    let translator = Translator::new();
    let prompt = translator.build_system_prompt();
    assert!(prompt.contains("#[no_mangle]"));
    assert!(prompt.contains("extern \"C\""));
    assert!(prompt.contains("FFI"));
    assert!(prompt.contains("Nightly") || prompt.contains("feature"));
}

#[test]
fn test_c_system_prompt_contains_key_requirements() {
    let translator = Translator::new();
    let prompt = translator.build_c_system_prompt();
    assert!(prompt.contains("#[no_mangle]"));
    assert!(prompt.contains("extern \"C\""));
    assert!(prompt.contains("FFI"));
    assert!(prompt.contains("C-compatible"));
}

#[test]
fn test_user_prompt_with_feedback() {
    let translator = Translator::new();
    let code = "fn test() {}";
    let feedback = "Build error: missing semicolon";
    let prev = "fn broken() {}";
    let prompt = translator.build_user_prompt(code, Some(feedback), Some(prev));
    assert!(prompt.contains(code));
    assert!(prompt.contains(feedback));
    assert!(prompt.contains(prev));
    assert!(prompt.contains("previous translation"));
}

#[test]
fn test_user_prompt_no_feedback() {
    let translator = Translator::new();
    let code = "fn test() {}";
    let prompt = translator.build_user_prompt(code, None, None);
    assert!(prompt.contains(code));
    assert!(!prompt.contains("PREVIOUS"));
}

#[test]
fn test_c_user_prompt_with_feedback() {
    let translator = Translator::new();
    let code = "void test() {}";
    let feedback = "Build error: missing semicolon";
    let prev = "fn broken() {}";
    let prompt = translator.build_c_user_prompt(code, Some(feedback), Some(prev));
    assert!(prompt.contains(code));
    assert!(prompt.contains(feedback));
    assert!(prompt.contains(prev));
    assert!(prompt.contains("```c"));
}

#[test]
fn test_executable_system_prompt_no_ffi() {
    let translator = Translator::new();
    let prompt = translator.build_executable_system_prompt();
    assert!(prompt.contains("fn main()"));
    assert!(prompt.contains("main.rs"));
    assert!(prompt.contains("Do NOT use"));
    assert!(prompt.contains("libc"));
    assert!(prompt.contains("std::env::args"));
}

#[test]
fn test_executable_c_system_prompt_no_ffi() {
    let translator = Translator::new();
    let prompt = translator.build_executable_c_system_prompt();
    assert!(prompt.contains("fn main()"));
    assert!(prompt.contains("main.rs"));
    assert!(prompt.contains("Do NOT use"));
    assert!(prompt.contains("stdout"));
    assert!(prompt.contains("libc"));
}

#[test]
fn test_executable_user_prompt_with_feedback() {
    let translator = Translator::new();
    let code = "fn main_0() {}";
    let feedback = "stdout mismatch";
    let prev = "fn main() { println!(\"wrong\"); }";
    let prompt = translator.build_executable_user_prompt(code, Some(feedback), Some(prev));
    assert!(prompt.contains(code));
    assert!(prompt.contains(prev));
    assert!(prompt.contains("previous translation"));
    assert!(prompt.contains("executable"));
}

#[test]
fn user_prompt_feedback_without_previous() {
    let translator = Translator::new();
    let prompt = translator.build_user_prompt("x", Some("boom"), None);
    assert_eq!(
        prompt,
        "Transform this C2Rust code to idiomatic Rust:\n\n```rust\nx\n```\n\nPREVIOUS ATTEMPT FAILED with error:\nboom\nFix these issues while keeping FFI compatibility."
    );
    let (sys, user) = translator.prompts("x", None, None, &SourceType::C, &ProgramType::Executable);
    assert_eq!(sys, translator.build_executable_c_system_prompt());
    assert!(user.starts_with("Translate this C executable code"));
}
