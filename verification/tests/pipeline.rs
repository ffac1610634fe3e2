use design_patterns_agent::translation::manifest::patched_manifest;
use design_patterns_agent::parser::module_graph::{CrateSources, ModuleGraph, SourceFile};
use design_patterns_agent::parser::workspace::{workspace_crates, CrateCandidate};
use design_patterns_agent::navigation::navigator::Navigator;
use design_patterns_agent::search::chunks::{chunk_source, group_hits, module_path_of_file, region_window, SearchHit};
use design_patterns_agent::translation::discovery::{program_source, run_name, sort_programs, ProgramSource, SourceProbe};
use design_patterns_agent::translation::pipeline::{size_check, AttemptEvent, NextStep, TranslationRun};
use design_patterns_agent::translation::report::{TranslationReport, TranslationResult};
use design_patterns_agent::translation::runner::{ExecTestVector, OutputPattern, TestRunner};
use design_patterns_agent::translation::sources::collect_source_code;
use design_patterns_agent::translation::types::{
    ProgramInfo, ProgramStatus, ProgramType, SourceType, TestVectorResults,
};

fn result(program: &str, collection: &str, status: ProgramStatus) -> TranslationResult {
    TranslationResult {
        program: program.to_string(),
        collection: collection.to_string(),
        status,
        skip_reason: None,
        attempts: 1,
        test_vectors: None,
        design_patterns: None,
        last_build_error: None,
        total_tokens: 0,
        idiom_text: "-".to_string(),
        llm_time_text: "-".to_string(),
    }
}

#[test]
fn test_report_to_markdown() {
    let mut a = result("lib_a", "test", ProgramStatus::Success);
    a.test_vectors = Some(TestVectorResults { total: 5, passed: 5, failed: 0, failures: vec![] });
    a.idiom_text = format!("{:.1}", 80.0);
    a.total_tokens = 1500;
    a.llm_time_text = format!("{:.1}s", 3.2);
    let mut b = result("lib_b", "test", ProgramStatus::Failed);
    b.skip_reason = Some("Tests failed after 5 attempts".to_string());
    b.attempts = 5;
    b.total_tokens = 800;
    b.llm_time_text = format!("{:.1}s", 2.1);
    let report = TranslationReport {
        total_programs: 3,
        success_count: 2,
        failed_count: 1,
        skipped_count: 0,
        run_dir: None,
        results: vec![a, b],
    };
    let rate = format!("{:.1}", (2.0_f64 / 3.0) * 100.0);
    let time = format!("{:.1}", 3.2_f64 + 2.1);
    let md = report.to_markdown(&rate, &time);
    assert!(md.contains("# Translation Report"));
    assert!(md.contains("Success Rate"));
    assert!(md.contains("lib_a"));
    assert!(md.contains("lib_b"));
}

#[test]
fn test_report_markdown_layout() {
    let mut a = result("lib_a", "first", ProgramStatus::Success);
    a.test_vectors = Some(TestVectorResults { total: 4, passed: 3, failed: 1, failures: vec!["f1".to_string()] });
    a.total_tokens = 10;
    let mut b = result("lib_b", "second", ProgramStatus::Failed);
    b.last_build_error = Some("e1\ne2".to_string());
    b.test_vectors = Some(TestVectorResults {
        total: 7,
        passed: 0,
        failed: 7,
        failures: (1..=7).map(|i| format!("t{}", i)).collect(),
    });
    let c = result("lib_c", "first", ProgramStatus::Skipped);
    let report = TranslationReport {
        total_programs: 3,
        success_count: 1,
        failed_count: 1,
        skipped_count: 1,
        run_dir: None,
        results: vec![a, b, c],
    };
    let md = report.to_markdown("33.3", "0.0");
    let expected = "# Translation Report\n\n## Summary\n\n| Metric | Count |\n|--------|-------|\n\
| Total Programs | 3 |\n| ✅ Success | 1 |\n| ❌ Failed | 1 |\n| ⏭️ Skipped | 1 |\n\
| Success Rate | 33.3% |\n| Total LLM Tokens | 10 |\n| Total LLM Time | 0.0s |\n\n\
## first\n\n| Program | Status | Attempts | Tests | Idiomaticity | Tokens | LLM Time |\n\
|---------|--------|----------|-------|-------------|--------|----------|\n\
| lib_a | ✅ | 1 | 3/4 | - | 10 | - |\n| lib_c | ⏭️ | 1 | - | - | - | - |\n\n\
## second\n\n| Program | Status | Attempts | Tests | Idiomaticity | Tokens | LLM Time |\n\
|---------|--------|----------|-------|-------------|--------|----------|\n\
| lib_b | ❌ | 1 | 0/7 | - | - | - |\n\n\
## Failed Programs Details\n\n### second/lib_b\n**Last Build Error:**\n```\ne1\ne2\n```\n\n\
**Test Failures:**\n```\nt1\nt2\nt3\nt4\nt5\n```\n\n\
## Skipped Programs\n\n| Program | Collection | Reason |\n|---------|------------|--------|\n\
| lib_c | first | Unknown |\n\n";
    assert_eq!(md, expected);
}

#[test]
fn test_report_new_is_empty() {
    let r = TranslationReport::new();
    assert_eq!(r.total_programs, 0);
    assert!(r.results.is_empty());
    let md = r.to_markdown("0.0", "0.0");
    assert!(!md.contains("## Failed Programs Details"));
    assert!(!md.contains("## Skipped Programs"));
    assert!(md.contains("| Total LLM Tokens | 0 |"));
}

fn program(name: &str, collection: &str) -> ProgramInfo {
    ProgramInfo {
        name: name.to_string(),
        collection: collection.to_string(),
        path: format!("/p/{}/{}", collection, name),
        translated_rust_path: String::new(),
        test_swap_path: String::new(),
        runner_path: None,
        test_vectors_path: String::new(),
        source_type: SourceType::Rust,
        program_type: ProgramType::Library,
    }
}

#[test]
fn test_sort_programs_by_collection_then_name() {
    let ps = vec![
        program("zeta", "B02"),
        program("alpha", "B02"),
        program("mid", "A01"),
        program("alpha", "A01"),
    ];
    let sorted = sort_programs(ps);
    let keys: Vec<(String, String)> = sorted.iter().map(|p| (p.collection.clone(), p.name.clone())).collect();
    assert_eq!(
        keys,
        vec![
            ("A01".to_string(), "alpha".to_string()),
            ("A01".to_string(), "mid".to_string()),
            ("B02".to_string(), "alpha".to_string()),
            ("B02".to_string(), "zeta".to_string()),
        ]
    );
}

#[test]
fn test_sort_programs_keeps_ties_in_order() {
    let mut a = program("same", "c");
    a.path = "/first".to_string();
    let mut b = program("same", "c");
    b.path = "/second".to_string();
    let sorted = sort_programs(vec![a, b, program("aaa", "c")]);
    assert_eq!(sorted[0].name, "aaa");
    assert_eq!(sorted[1].path, "/first");
    assert_eq!(sorted[2].path, "/second");
}

fn probe() -> SourceProbe {
    SourceProbe {
        translated_src_lib: false,
        translated_lib: false,
        nested_src_lib: false,
        nested_lib: false,
        dst_exists: false,
        dst_first_with_lib: None,
    }
}

#[test]
fn test_program_source_preference() {
    let mut p = probe();
    p.translated_lib = true;
    p.nested_src_lib = true;
    assert!(matches!(program_source(p), Some(ProgramSource::TranslatedRust)));
    let mut p = probe();
    p.nested_lib = true;
    assert!(matches!(program_source(p), Some(ProgramSource::DstNested)));
    let mut p = probe();
    p.dst_exists = true;
    p.dst_first_with_lib = Some("other".to_string());
    match program_source(p) {
        Some(ProgramSource::DstSubdir(d)) => assert_eq!(d, "other"),
        _ => panic!("expected the first subdirectory of dst"),
    }
    let mut p = probe();
    p.dst_exists = true;
    assert!(program_source(p).is_none());
    assert!(program_source(probe()).is_none());
}

#[test]
fn test_group_hits_by_file_and_start() {
    let hits = vec![
        SearchHit { file_path: "src/b.rs".to_string(), line_start: 30, line_end: 32 },
        SearchHit { file_path: "src/a.rs".to_string(), line_start: 5, line_end: 6 },
        SearchHit { file_path: "src/b.rs".to_string(), line_start: 10, line_end: 12 },
        SearchHit { file_path: "src/b.rs".to_string(), line_start: 10, line_end: 20 },
    ];
    let groups = group_hits(hits);
    assert_eq!(groups.len(), 2);
    assert_eq!(groups[0].0, "src/b.rs");
    assert_eq!(groups[0].1, vec![(10, 12), (10, 20), (30, 32)]);
    assert_eq!(groups[1].0, "src/a.rs");
    assert_eq!(groups[1].1, vec![(5, 6)]);
}

#[test]
fn test_module_path_of_file() {
    assert_eq!(module_path_of_file("src/parser/ast.rs"), "src::parser::ast");
    assert_eq!(module_path_of_file("src/parser/mod.rs"), "src::parser");
    assert_eq!(module_path_of_file("src/lib.rs"), "srccrate");
    assert_eq!(module_path_of_file("src/main.rs"), "srccrate");
    assert_eq!(module_path_of_file("x.rs.rs"), "x");
}

#[test]
fn test_region_window_and_chunk_source() {
    let source = "line one\nline two\nline three\nline four\n";
    assert_eq!(region_window(source, 2, 3), "line two\nline three");
    assert_eq!(region_window(source, 0, 99), "line one\nline two\nline three\nline four");
    assert_eq!(chunk_source("short", 100), None);
    let raw = "a window of text long enough";
    assert_eq!(chunk_source(raw, 100), Some(raw.to_string()));
    assert_eq!(chunk_source(raw, 8), Some("a window...\n// (truncated)".to_string()));
}

#[test]
fn test_size_check() {
    assert!(size_check(1000, 1000).is_none());
    match size_check(1523, 1000) {
        Some(NextStep::Stop { status, reason, tests, last_build_error }) => {
            assert_eq!(status, ProgramStatus::Skipped);
            assert_eq!(reason, "File exceeds 1000 lines (1523 lines)");
            assert!(tests.is_none() && last_build_error.is_none());
        },
        _ => panic!("expected a skip"),
    }
}

#[test]
fn test_translation_run_retries_then_fails() {
    let (mut run, first) = TranslationRun::start(2, false);
    assert!(matches!(first, NextStep::Translate));
    assert!(matches!(run.step(AttemptEvent::Translated { tokens: 100 }), NextStep::Build));
    let next = run.step(AttemptEvent::BuildFailed {
        message: "E0425".to_string(),
        display: "error[E0425]".to_string(),
    });
    assert!(matches!(next, NextStep::Translate));
    assert_eq!(run.attempts, 2);
    assert!(run.last_feedback.as_ref().unwrap().contains("E0425"));
    assert!(matches!(run.step(AttemptEvent::Translated { tokens: 50 }), NextStep::Build));
    assert_eq!(run.total_tokens, 150);
    match run.step(AttemptEvent::BuildFailed { message: "E0308".to_string(), display: "E0308".to_string() }) {
        NextStep::Stop { status, reason, last_build_error, .. } => {
            assert_eq!(status, ProgramStatus::Failed);
            assert_eq!(reason, "Build failed after 2 attempts");
            assert_eq!(last_build_error, Some("E0308".to_string()));
        },
        _ => panic!("expected a failure"),
    }
}

#[test]
fn test_translation_run_succeeds_after_tests() {
    let (mut run, _) = TranslationRun::start(5, false);
    run.step(AttemptEvent::Translated { tokens: 1 });
    assert!(matches!(run.step(AttemptEvent::BuildSucceeded), NextStep::RunTests));
    let results = TestVectorResults { total: 3, passed: 3, failed: 0, failures: vec![] };
    match run.step(AttemptEvent::TestsRan { results }) {
        NextStep::Succeed { tests } => assert_eq!(tests.unwrap().passed, 3),
        _ => panic!("expected success"),
    }
}

#[test]
fn test_translation_run_context_exceeded_skips() {
    let (mut run, _) = TranslationRun::start(5, true);
    match run.step(AttemptEvent::LlmFailed { message: "error: context_length_exceeded".to_string() }) {
        NextStep::Stop { status, reason, .. } => {
            assert_eq!(status, ProgramStatus::Skipped);
            assert_eq!(reason, "LLM context length exceeded");
        },
        _ => panic!("expected a skip"),
    }
}

#[test]
fn test_translation_run_skipped_tests_succeed_on_build() {
    let (mut run, _) = TranslationRun::start(5, true);
    run.step(AttemptEvent::Translated { tokens: 1 });
    assert!(matches!(run.step(AttemptEvent::BuildSucceeded), NextStep::Succeed { tests: None }));
}

#[test]
fn test_collect_source_code_parts() {
    let top = "#![allow(dead_code)]\npub mod a;\nfn helper() {}\n";
    let src = "pub fn f() {}";
    let out = collect_source_code("/x", Some(top), Some(src)).unwrap();
    assert_eq!(out, "#![allow(dead_code)]\n\nfn helper() {}\n\npub fn f() {}");
    let only_decls = "pub mod a;\n// comment\n";
    assert_eq!(collect_source_code("/x", Some(only_decls), None), Err("No Rust source files found in /x".to_string()));
    assert_eq!(collect_source_code("/x", None, None), Err("No Rust source files found in /x".to_string()));
}

#[test]
fn test_judge_and_tally_vectors() {
    let tv = ExecTestVector {
        argv: vec![],
        stdin: None,
        stdout: Some(OutputPattern { pattern: "hello".to_string(), is_regex: None }),
        stderr: None,
        rc: Some(0),
    };
    assert_eq!(TestRunner::judge_vector("t1", &tv, "hello", "", 0), None);
    let bad = TestRunner::judge_vector("t2", &tv, "bye", "", 1).unwrap();
    assert!(bad.starts_with("t2: FAILED\n"));
    assert!(bad.contains("stdout mismatch"));
    assert!(bad.contains("exit code mismatch"));
    let results = TestRunner::tally_vectors(3, vec![None, Some(bad.clone()), None]);
    assert_eq!(results.total, 3);
    assert_eq!(results.passed, 2);
    assert_eq!(results.failed, 1);
    assert_eq!(results.failures, vec![bad]);
}

#[test]
fn test_workspace_crates_sorted_and_filtered() {
    let cands = vec![
        CrateCandidate { name: "zeta".to_string(), root: Some("/w/zeta/src/lib.rs".to_string()) },
        CrateCandidate { name: "target".to_string(), root: Some("/w/target/src/lib.rs".to_string()) },
        CrateCandidate { name: ".hidden".to_string(), root: Some("/w/.hidden/src/lib.rs".to_string()) },
        CrateCandidate { name: "alpha".to_string(), root: Some("/w/alpha/src/main.rs".to_string()) },
        CrateCandidate { name: "docs".to_string(), root: None },
    ];
    let crates = workspace_crates(cands);
    assert_eq!(
        crates,
        vec![
            ("alpha".to_string(), "/w/alpha/src/main.rs".to_string()),
            ("zeta".to_string(), "/w/zeta/src/lib.rs".to_string()),
        ]
    );
}

#[test]
fn test_workspace_graph_prefixes_modules() {
    let crates = vec![
        CrateSources {
            name: "core".to_string(),
            root_path: "/w/core/src/lib.rs".to_string(),
            files: vec![
                SourceFile { path: "/w/core/src/lib.rs".to_string(), content: Ok("pub mod io;\n".to_string()) },
                SourceFile { path: "/w/core/src/io.rs".to_string(), content: Ok("pub struct Port;\n".to_string()) },
            ],
        },
        CrateSources {
            name: "app".to_string(),
            root_path: "/w/app/src/main.rs".to_string(),
            files: vec![SourceFile { path: "/w/app/src/main.rs".to_string(), content: Ok("fn main() {}\n".to_string()) }],
        },
    ];
    let graph = ModuleGraph::from_workspace(&crates);
    let names: Vec<String> = graph.modules().iter().map(|m| m.name.clone()).collect();
    assert!(names.contains(&"core::io".to_string()));
    assert!(graph.module_count() >= 3);
    let nav = Navigator::new_multi_crate("/w", &crates, 10, 4000).unwrap();
    assert_eq!(nav.module_count(), graph.module_count());
}

#[test]
fn test_run_name() {
    assert_eq!(run_name("openai/gpt 5", "20250101_120000"), "openai_gpt_5_20250101_120000");
}

#[test]
fn manifest_gets_lib_path_or_stays() {
    let patched = patched_manifest("[package]\nname = \"x\"\n\n[lib]\ncrate-type = [\"cdylib\"]\n");
    assert!(patched.contains("path = \"lib.rs\""));
    assert!(patched.contains("crate-type"));
    let no_lib = "[package]\nname = \"x\"\n";
    assert_eq!(patched_manifest(no_lib), no_lib);
    let broken = "[package\nname = ";
    assert_eq!(patched_manifest(broken), broken);
}

#[test]
fn attempts_count_the_requests_to_the_model() {
    let (mut run, first) = TranslationRun::start(4, true);
    let mut asks = if matches!(first, NextStep::Translate) { 1 } else { 0 };
    let events = vec![
        AttemptEvent::LlmFailed { message: "timeout".to_string() },
        AttemptEvent::Translated { tokens: 10 },
        AttemptEvent::BuildFailed { message: "E1".to_string(), display: "E1".to_string() },
        AttemptEvent::Translated { tokens: 10 },
        AttemptEvent::BuildSucceeded,
    ];
    for e in events {
        if matches!(run.step(e), NextStep::Translate) {
            asks += 1;
        }
    }
    assert_eq!(asks, 3);
    assert_eq!(run.attempts, 3);
    assert_eq!(run.total_tokens, 20);
}
