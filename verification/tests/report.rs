use design_patterns_agent::agent::assemble::assemble_report;
use design_patterns_agent::detection::validation::ValidationResult;
use design_patterns_agent::report::dedup::deduplicate;
use design_patterns_agent::report::markdown::generate_markdown;
use design_patterns_agent::report::types::{
    Confidence, Evidence, Invariant, InvariantType, Location, Report,
};

fn make_test_invariant(id: usize, inv_type: InvariantType) -> Invariant {
    Invariant {
        id,
        invariant_type: inv_type,
        title: format!("Test {}", id),
        description: "A test".to_string(),
        location: Location { file_path: "test.rs".to_string(), line_start: 1, line_end: 10 },
        evidence: Evidence { code_snippet: "code".to_string(), explanation: "explanation".to_string() },
        suggested_pattern: "typestate".to_string(),
        confidence: Confidence::Medium,
        entity: String::new(),
    }
}

#[test]
fn test_report_creation() {
    let report = Report::new();
    assert_eq!(report.summary.total_invariants, 0);
    assert_eq!(report.invariants.len(), 0);
}

#[test]
fn test_add_invariant() {
    let mut report = Report::new();
    report.add_invariant(make_test_invariant(1, InvariantType::StateMachine));
    assert_eq!(report.summary.total_invariants, 1);
    assert_eq!(report.summary.state_machine_count, 1);
    assert_eq!(report.invariants.len(), 1);
}

#[test]
fn mod_test_multiple_invariant_types() {
    let mut report = Report::new();
    report.add_invariant(make_test_invariant(1, InvariantType::TemporalOrdering));
    report.add_invariant(make_test_invariant(2, InvariantType::ResourceLifecycle));
    assert_eq!(report.summary.total_invariants, 2);
    assert_eq!(report.summary.temporal_ordering_count, 1);
    assert_eq!(report.summary.resource_lifecycle_count, 1);
}

#[test]
fn test_dedup_same_entity_title() {
    let mut inv1 = make_test_invariant(1, InvariantType::StateMachine);
    inv1.entity = "Foo".to_string();
    inv1.title = "Foo::Open state".to_string();
    inv1.confidence = Confidence::Medium;
    let mut inv2 = make_test_invariant(2, InvariantType::StateMachine);
    inv2.entity = "Foo".to_string();
    inv2.title = "Foo::Open state".to_string();
    inv2.confidence = Confidence::High;
    let result = deduplicate(vec![inv1, inv2]);
    assert_eq!(result.len(), 1);
    assert_eq!(result[0].confidence, Confidence::High);
}

#[test]
fn test_dedup_different_entities() {
    let mut inv1 = make_test_invariant(1, InvariantType::StateMachine);
    inv1.entity = "Foo".to_string();
    inv1.title = "Foo::Open state".to_string();
    let mut inv2 = make_test_invariant(2, InvariantType::StateMachine);
    inv2.entity = "Bar".to_string();
    inv2.title = "Bar::Open state".to_string();
    let result = deduplicate(vec![inv1, inv2]);
    assert_eq!(result.len(), 2);
}

#[test]
fn test_dedup_confidence_tiebreak() {
    let mut inv1 = make_test_invariant(1, InvariantType::StateMachine);
    inv1.entity = "Foo".to_string();
    inv1.title = "Foo state".to_string();
    inv1.confidence = Confidence::High;
    inv1.evidence = Evidence { code_snippet: "short".to_string(), explanation: "exp".to_string() };
    let mut inv2 = make_test_invariant(2, InvariantType::StateMachine);
    inv2.entity = "Foo".to_string();
    inv2.title = "Foo state".to_string();
    inv2.confidence = Confidence::High;
    inv2.evidence = Evidence {
        code_snippet: "a much longer code snippet that has more evidence".to_string(),
        explanation: "exp".to_string(),
    };
    let result = deduplicate(vec![inv1, inv2]);
    assert_eq!(result.len(), 1);
    assert!(result[0].evidence.code_snippet.contains("much longer"));
}

#[test]
fn dedup_is_idempotent_and_keys_ignore_case_and_spacing() {
    let mut a = make_test_invariant(1, InvariantType::Protocol);
    a.entity = "Conn".to_string();
    a.title = "Open  Before   Read".to_string();
    let mut b = make_test_invariant(2, InvariantType::Protocol);
    b.entity = "CONN".to_string();
    b.title = "open before read".to_string();
    let mut c = make_test_invariant(3, InvariantType::StateMachine);
    c.entity = "Conn".to_string();
    c.title = "open before read".to_string();
    let once = deduplicate(vec![a, b, c]);
    assert_eq!(once.len(), 2);
    let ids: Vec<usize> = once.iter().map(|i| i.id).collect();
    let twice = deduplicate(once);
    let ids2: Vec<usize> = twice.iter().map(|i| i.id).collect();
    assert_eq!(ids, ids2);
}

fn make_invariant(id: usize, inv_type: InvariantType) -> Invariant {
    Invariant {
        id,
        invariant_type: inv_type,
        title: format!("Test Invariant {}", id),
        description: "Must call init before use".to_string(),
        location: Location { file_path: "src/conn.rs".to_string(), line_start: 10, line_end: 50 },
        evidence: Evidence {
            code_snippet: "fn init() {}".to_string(),
            explanation: "Runtime check reveals ordering requirement".to_string(),
        },
        suggested_pattern: "typestate".to_string(),
        confidence: Confidence::High,
        entity: String::new(),
    }
}

#[test]
fn test_generate_empty_report() {
    let report = Report::new();
    let markdown = generate_markdown(&report).unwrap();
    assert!(markdown.contains("# Latent Invariant Analysis Report"));
    assert!(markdown.contains("Total invariants discovered**: 0"));
}

#[test]
fn test_generate_report_with_invariant() {
    let mut report = Report::new();
    report.add_invariant(make_invariant(1, InvariantType::TemporalOrdering));
    let markdown = generate_markdown(&report).unwrap();
    assert!(markdown.contains("## Temporal Ordering Invariants"));
    assert!(markdown.contains("### 1. Test Invariant 1"));
    assert!(markdown.contains("**Confidence**: high"));
    assert!(markdown.contains("**Suggested Pattern**: typestate"));
}

#[test]
fn markdown_test_multiple_invariant_types() {
    let mut report = Report::new();
    report.add_invariant(make_invariant(1, InvariantType::TemporalOrdering));
    report.add_invariant(make_invariant(2, InvariantType::ResourceLifecycle));
    let markdown = generate_markdown(&report).unwrap();
    assert!(markdown.contains("## Temporal Ordering Invariants"));
    assert!(markdown.contains("## Resource Lifecycle Invariants"));
}

#[test]
fn markdown_lists_skipped_files() {
    let mut report = Report::new();
    report.parse_failures.push(("src/bad.rs".to_string(), "expected item".to_string()));
    let markdown = generate_markdown(&report).unwrap();
    assert!(markdown.contains("## Skipped Files\n\n1 file(s) could not be parsed:\n\n- `src/bad.rs`: expected item\n\n"));
}

#[test]
fn dedup_merges_titles_with_large_word_overlap() {
    let mut a = make_test_invariant(1, InvariantType::StateMachine);
    a.entity = "Foo".to_string();
    a.title = "Foo open closed state machine".to_string();
    let mut b = make_test_invariant(2, InvariantType::StateMachine);
    b.entity = "Foo".to_string();
    b.title = "Foo state machine open closed transitions".to_string();
    let result = deduplicate(vec![a, b]);
    assert_eq!(result.len(), 1);
    assert_eq!(result[0].id, 1);
}

#[test]
fn dedup_keeps_titles_with_small_overlap_or_other_kind() {
    let mut a = make_test_invariant(1, InvariantType::StateMachine);
    a.entity = "Foo".to_string();
    a.title = "Foo open closed state machine".to_string();
    let mut b = make_test_invariant(2, InvariantType::StateMachine);
    b.entity = "Foo".to_string();
    b.title = "Foo buffer must be flushed before drop".to_string();
    let mut c = make_test_invariant(3, InvariantType::Protocol);
    c.entity = "Foo".to_string();
    c.title = "Foo open closed state machine protocol".to_string();
    let mut d = make_test_invariant(4, InvariantType::StateMachine);
    d.entity = "Bar".to_string();
    d.title = "Foo open closed state machine".to_string();
    let result = deduplicate(vec![a, b, c, d]);
    let ids: Vec<usize> = result.iter().map(|i| i.id).collect();
    assert_eq!(ids, vec![1, 2, 3, 4]);
}

#[test]
fn run_report_keeps_checked_findings_and_counts_them() {
    let mut a = make_test_invariant(1, InvariantType::StateMachine);
    a.title = "Alpha open close".to_string();
    let mut b = make_test_invariant(2, InvariantType::Protocol);
    b.title = "Beta handshake".to_string();
    b.entity = "Beta".to_string();
    let mut c = make_test_invariant(3, InvariantType::StateMachine);
    c.title = "Gamma lifecycle".to_string();
    c.entity = "Gamma".to_string();
    let outcomes = vec![
        Ok(ValidationResult { valid: true, reason: "ok".to_string(), adjusted_confidence: Confidence::Low }),
        Ok(ValidationResult { valid: false, reason: "not real".to_string(), adjusted_confidence: Confidence::High }),
        Err("timeout".to_string()),
    ];
    let failures = vec![("bad.rs".to_string(), "parse error".to_string())];
    let report = assemble_report(4, failures.clone(), vec![a, b, c], Some(outcomes));
    assert_eq!(report.invariants.len(), 2);
    assert_eq!(report.invariants[0].title, "Alpha open close");
    assert_eq!(report.invariants[0].confidence, Confidence::Low);
    assert_eq!(report.invariants[1].title, "Gamma lifecycle");
    assert_eq!(report.summary.total_invariants, 2);
    assert_eq!(report.summary.state_machine_count, 2);
    assert_eq!(report.summary.protocol_count, 0);
    assert_eq!(report.summary.modules_analyzed, 4);
    assert_eq!(report.parse_failures, failures);
    let unchecked = assemble_report(1, vec![], vec![make_test_invariant(9, InvariantType::Protocol)], None);
    assert_eq!(unchecked.summary.protocol_count, 1);
}
