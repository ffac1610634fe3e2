use design_patterns_agent::detection::answer::{
    is_compile_time_noise, is_enum_variant_noise, verify_citations, LlmInvariant,
};
use design_patterns_agent::detection::evidence::EvidenceExtractor;
use design_patterns_agent::detection::inference::{InvariantDetector, InvariantInferenceDetector};
use design_patterns_agent::detection::legacy::{
    CodeContext, InterestingItem, LinearTypeDetector, StateMachineDetector,
};
use design_patterns_agent::detection::parsing::{
    classify_from_text, downgrade_confidence, extract_field, extract_json_array,
    extract_json_object, parse_confidence, parse_invariant_kind,
};
use design_patterns_agent::detection::validation::{
    truncate_snippet, InvariantValidator, RawValidation,
};
use design_patterns_agent::navigation::AnalysisChunk;
use design_patterns_agent::parser::{Field, SourceLocation, StructDef, Visibility};
use design_patterns_agent::report::types::{Confidence, InvariantType};

fn chunk(raw_source: &str, sibling_summary: Option<String>) -> AnalysisChunk {
    AnalysisChunk {
        chunk_id: "test".to_string(),
        module_name: "test".to_string(),
        file_path: "test.rs".to_string(),
        raw_source: raw_source.to_string(),
        structs: vec![],
        enums: vec![],
        functions: vec![],
        traits: vec![],
        impl_blocks: vec![],
        sibling_summary,
    }
}

#[test]
fn test_format_chunk_prefers_raw_source() {
    let c = chunk("// Must call init before use\nfn init() {}\nfn use_it() {}", None);
    let formatted = EvidenceExtractor::format_chunk(&c);
    assert!(formatted.contains("Must call init before use"));
}

#[test]
fn test_format_chunk_with_sibling_summary() {
    let c = chunk(
        "fn foo() {}",
        Some("Other parts contain: struct Bar, impl Bar (3 methods)".to_string()),
    );
    let formatted = EvidenceExtractor::format_chunk(&c);
    assert!(formatted.contains("Note:"));
    assert!(formatted.contains("struct Bar"));
}

#[test]
fn test_reconstruct_from_ast_fallback() {
    let mut c = chunk("", None);
    c.structs = vec![StructDef {
        name: "Conn".to_string(),
        generics: String::new(),
        fields: vec![Field { name: "open".to_string(), ty: "bool".to_string() }],
        visibility: Visibility::Public,
        doc_comment: Some(" A connection".to_string()),
        has_phantom_data: false,
        source_location: SourceLocation { file_path: "test.rs".to_string(), line: 1 },
    }];
    let formatted = EvidenceExtractor::format_chunk(&c);
    assert!(formatted.contains("pub struct Conn"));
    assert!(formatted.contains("open: bool"));
    assert!(formatted.contains("A connection"));
}

#[test]
fn test_parse_invariant_kind() {
    assert_eq!(parse_invariant_kind("temporal_ordering"), InvariantType::TemporalOrdering);
    assert_eq!(parse_invariant_kind("resource_lifecycle"), InvariantType::ResourceLifecycle);
    assert_eq!(parse_invariant_kind("state_machine"), InvariantType::StateMachine);
    assert_eq!(parse_invariant_kind("precondition"), InvariantType::Precondition);
    assert_eq!(parse_invariant_kind("protocol"), InvariantType::Protocol);
    assert_eq!(parse_invariant_kind("ordering requirement"), InvariantType::TemporalOrdering);
}

#[test]
fn test_parse_confidence() {
    assert_eq!(parse_confidence("high"), Confidence::High);
    assert_eq!(parse_confidence("medium"), Confidence::Medium);
    assert_eq!(parse_confidence("low"), Confidence::Low);
    assert_eq!(parse_confidence("unknown"), Confidence::Medium);
}

#[test]
fn test_extract_json_array() {
    let response = "Here are the invariants:\n```json\n[{\"name\": \"test\", \"kind\": \"temporal_ordering\"}]\n```";
    let json = extract_json_array(response).unwrap();
    assert!(json.starts_with('['));
    assert!(json.ends_with(']'));
}

#[test]
fn test_extract_json_array_no_fences() {
    let response = r#"[{"name": "test"}]"#;
    let json = extract_json_array(response).unwrap();
    assert_eq!(json, r#"[{"name": "test"}]"#);
}

#[test]
fn test_extract_json_array_empty() {
    let json = extract_json_array("[]").unwrap();
    assert_eq!(json, "[]");
}

#[test]
fn test_classify_from_text() {
    assert_eq!(
        classify_from_text("typestate", "must call init before use"),
        InvariantType::TemporalOrdering
    );
    assert_eq!(
        classify_from_text("RAII", "cleanup resources on drop"),
        InvariantType::ResourceLifecycle
    );
    assert_eq!(classify_from_text("newtype", "state transitions"), InvariantType::StateMachine);
}

fn answer(
    entity: &str,
    name: &str,
    states: Vec<&str>,
    kind: &str,
    description: &str,
    transitions: Vec<&str>,
    evidence: Vec<&str>,
    pattern: &str,
    confidence: &str,
) -> LlmInvariant {
    LlmInvariant {
        entity: entity.to_string(),
        name: name.to_string(),
        states: states.into_iter().map(|s| s.to_string()).collect(),
        state: String::new(),
        kind: kind.to_string(),
        description: description.to_string(),
        transitions: transitions.into_iter().map(|s| s.to_string()).collect(),
        evidence: evidence.into_iter().map(|s| s.to_string()).collect(),
        suggested_pattern: pattern.to_string(),
        implementation_sketch: String::new(),
        confidence: confidence.to_string(),
    }
}

#[test]
fn test_compile_time_noise_filter() {
    let noisy = answer(
        "TokenTree",
        "Conditional compilation guard",
        vec![],
        "precondition",
        "cfg_select macro ensures correct platform code",
        vec![],
        vec![],
        "",
        "high",
    );
    assert!(is_compile_time_noise(&noisy));
    let good = answer(
        "Connection",
        "Connection state machine (Open / Closed)",
        vec!["Open", "Closed"],
        "state_machine",
        "Connection must be opened before reading",
        vec!["Open -> Closed via close()"],
        vec![],
        "typestate",
        "high",
    );
    assert!(!is_compile_time_noise(&good));
}

#[test]
fn test_enum_variant_noise_filter() {
    let error_noise = answer(
        "TryRecvError",
        "TryRecvError::Empty state",
        vec![],
        "state_machine",
        "Represents the state where a recv could not obtain a message",
        vec![],
        vec![],
        "newtype",
        "low",
    );
    assert!(is_enum_variant_noise(&error_noise));
    let real = answer(
        "Channel<T>",
        "Channel state machine (Connected / Disconnected)",
        vec!["Connected", "Disconnected"],
        "state_machine",
        "Channel transitions from Connected to Disconnected when all senders drop",
        vec!["Connected -> Disconnected via disconnect()"],
        vec!["line 5: mark bit in tail"],
        "typestate",
        "medium",
    );
    assert!(!is_enum_variant_noise(&real));
}

/// The share of borne-out citations, as the detector weighs it: a half
/// when there are no line citations.
fn citation_rate(evidence: &[String], snippet: &str) -> f64 {
    let tally = verify_citations(&evidence.to_vec(), snippet);
    if tally.total == 0 {
        0.5
    } else {
        tally.verified as f64 / tally.total as f64
    }
}

#[test]
fn test_citation_verified() {
    let snippet = "fn foo() {\n    let x = 1;\n    if x > 0 {\n        bar();\n    }\n}";
    let evidence = vec!["line 2: let x = 1".to_string(), "line 3: if x > 0".to_string()];
    let rate = citation_rate(&evidence, snippet);
    assert!(rate > 0.9);
}

#[test]
fn test_citation_wrong_line() {
    let snippet = "fn foo() {\n    let x = 1;\n}";
    let evidence = vec!["line 50: something that does not exist".to_string()];
    let rate = citation_rate(&evidence, snippet);
    assert!(rate < 0.1);
}

#[test]
fn test_citation_no_prefix() {
    let snippet = "fn foo() {}";
    let evidence = vec!["the foo function does something".to_string()];
    let rate = citation_rate(&evidence, snippet);
    assert!((rate - 0.5).abs() < 0.01);
}

#[test]
fn test_downgrade_confidence() {
    assert_eq!(downgrade_confidence("high"), "medium");
    assert_eq!(downgrade_confidence("medium"), "low");
    assert_eq!(downgrade_confidence("low"), "low");
}

#[test]
fn invariant_inference_test_extract_field() {
    let text = "Name: File Handle State\nDescription: File must be opened first\nPattern: Typestate";
    assert_eq!(extract_field(text, "Name:"), Some("File Handle State".to_string()));
    assert_eq!(extract_field(text, "Description:"), Some("File must be opened first".to_string()));
    assert_eq!(extract_field(text, "Pattern:"), Some("Typestate".to_string()));
}

#[test]
fn linear_types_test_detector_creation() {
    let detector = LinearTypeDetector::new();
    assert!(std::mem::size_of_val(&detector) == 0);
}

#[test]
fn mod_test_detector_creation() {
    let _detector = InvariantDetector::new();
}

#[test]
fn state_machine_test_detector_creation() {
    let detector = StateMachineDetector::new();
    assert!(std::mem::size_of_val(&detector) == 0);
}

#[test]
fn state_machine_test_extract_field() {
    let detector = StateMachineDetector::new();
    let text = "Title: Typestate Pattern\nDescription: Uses PhantomData";
    let title = detector.extract_field(text, "Title:");
    assert_eq!(title, Some("Typestate Pattern".to_string()));
    let description = detector.extract_field(text, "Description:");
    assert_eq!(description, Some("Uses PhantomData".to_string()));
}

fn create_test_context() -> CodeContext {
    CodeContext {
        item: InterestingItem::TypeStateCandidate {
            struct_def: StructDef {
                name: "Test".to_string(),
                generics: "".to_string(),
                fields: vec![],
                visibility: Visibility::Public,
                doc_comment: None,
                has_phantom_data: true,
                source_location: SourceLocation { file_path: "test.rs".to_string(), line: 1 },
            },
            impl_blocks: vec![],
        },
        surrounding_code: String::new(),
        module_name: "test".to_string(),
    }
}

#[test]
fn test_parse_response_no_invariants() {
    let detector = StateMachineDetector::new();
    let response = "NO INVARIANTS FOUND";
    let context = create_test_context();
    let mut next_id = 1;
    let invariants = detector.parse_response(response, &context, &mut next_id).unwrap();
    assert!(invariants.is_empty());
}

#[test]
fn state_machine_parses_found_sections() {
    let detector = StateMachineDetector::new();
    let response = "INVARIANT FOUND\nTitle: Open before read\nDescription: read needs an open file\nExplanation: typestate\nINVARIANT FOUND\nTitle: Lonely";
    let context = create_test_context();
    let mut next_id = 7;
    let invariants = detector.parse_response(response, &context, &mut next_id).unwrap();
    assert_eq!(invariants.len(), 1);
    assert_eq!(invariants[0].id, 7);
    assert_eq!(invariants[0].title, "Open before read");
    assert_eq!(invariants[0].evidence.explanation, "typestate");
    assert_eq!(invariants[0].location.file_path, "test.rs");
    assert_eq!(next_id, 8);
}

#[test]
fn test_truncate_snippet() {
    let short = "fn foo() {}";
    assert_eq!(truncate_snippet(short, 100), short);
    let long = "x".repeat(100);
    let truncated = truncate_snippet(&long, 50);
    assert!(truncated.len() <= 54);
    assert!(truncated.ends_with("..."));
}

#[test]
fn truncate_snippet_stops_at_char_boundary() {
    let s = "aé";
    assert_eq!(truncate_snippet(s, 2), "a...");
    assert_eq!(truncate_snippet(s, 3), "aé");
}

#[test]
fn validation_answer_json_and_fallback() {
    let fenced = "```json\n{\n  \"valid\": true,\n  \"reason\": \"ok\",\n  \"adjusted_confidence\": \"high\"\n}\n```";
    assert!(InvariantValidator::answer_json(fenced).starts_with('{'));
    assert_eq!(InvariantValidator::answer_json("not json"), "not json");
    assert_eq!(extract_json_object("x {\"a\": 1} y"), Some("{\"a\": 1}".to_string()));
    let r = InvariantValidator::parse_validation_response(None).unwrap();
    assert!(r.valid);
    assert_eq!(r.adjusted_confidence, Confidence::Medium);
    let r = InvariantValidator::parse_validation_response(Some(RawValidation {
        valid: false,
        reason: "This is a compile-time guarantee".to_string(),
        adjusted_confidence: "LOW".to_string(),
    }))
    .unwrap();
    assert!(!r.valid);
    assert!(r.reason.contains("compile-time"));
    assert_eq!(r.adjusted_confidence, Confidence::Low);
}

fn raw_validation_of(response: &str) -> Option<RawValidation> {
    let json = InvariantValidator::answer_json(response);
    let v: serde_json::Value = serde_json::from_str(&json).ok()?;
    let obj = v.as_object()?;
    let valid = match obj.get("valid") {
        Some(b) => b.as_bool()?,
        None => false,
    };
    let reason = match obj.get("reason") {
        Some(s) => s.as_str()?.to_string(),
        None => String::new(),
    };
    let adjusted_confidence = match obj.get("adjusted_confidence") {
        Some(s) => s.as_str()?.to_string(),
        None => "medium".to_string(),
    };
    Some(RawValidation { valid, reason, adjusted_confidence })
}

#[test]
fn test_parse_validation_response_valid() {
    let response = "```json\n{\n  \"valid\": true,\n  \"reason\": \"The invariant is well-supported by evidence\",\n  \"adjusted_confidence\": \"high\"\n}\n```";
    let result = InvariantValidator::parse_validation_response(raw_validation_of(response)).unwrap();
    assert!(result.valid);
    assert_eq!(result.adjusted_confidence, Confidence::High);
}

#[test]
fn test_parse_validation_response_invalid() {
    let response = r#"{"valid": false, "reason": "This is a compile-time guarantee", "adjusted_confidence": "low"}"#;
    let result = InvariantValidator::parse_validation_response(raw_validation_of(response)).unwrap();
    assert!(!result.valid);
    assert!(result.reason.contains("compile-time"));
    assert_eq!(result.adjusted_confidence, Confidence::Low);
}

#[test]
fn test_parse_validation_response_fallback() {
    let response = "This is not JSON at all";
    let result = InvariantValidator::parse_validation_response(raw_validation_of(response)).unwrap();
    assert!(result.valid);
    assert_eq!(result.adjusted_confidence, Confidence::Medium);
}

#[test]
fn inference_json_answers_become_invariants() {
    let detector = InvariantInferenceDetector::new();
    let c = chunk("struct FileHandle { is_open: bool }\nfn read() {}", None);
    let snippet = "struct FileHandle {\n    is_open: bool,\n}";
    let good = LlmInvariant {
        entity: "FileHandle".to_string(),
        name: "FileHandle state machine".to_string(),
        states: vec!["Open".to_string(), "Closed".to_string()],
        state: String::new(),
        kind: "state_machine".to_string(),
        description: "open then closed".to_string(),
        transitions: vec!["Open -> Closed via close()".to_string()],
        evidence: vec!["line 40: nothing like this".to_string()],
        suggested_pattern: "typestate".to_string(),
        implementation_sketch: "FileHandle<S>".to_string(),
        confidence: "high".to_string(),
    };
    let noise = answer("X", "cfg_if gate", vec![], "protocol", "d", vec![], vec![], "", "low");
    let mut next = 3;
    let out = detector
        .parse_response("ignored", Some(vec![good, noise]), &c, snippet, &mut next)
        .unwrap();
    assert_eq!(out.len(), 1);
    assert_eq!(next, 4);
    let inv = &out[0];
    assert_eq!(inv.id, 3);
    assert_eq!(inv.invariant_type, InvariantType::StateMachine);
    assert_eq!(inv.confidence, Confidence::Medium);
    assert_eq!(inv.location.line_end, 3);
    assert_eq!(
        inv.evidence.explanation,
        "**Entity:** FileHandle\n\n**States:** Open, Closed\n\n**Transitions:**\n- Open -> Closed via close()\n\n**Evidence:** line 40: nothing like this\n\n**Implementation:** FileHandle<S>"
    );
}

#[test]
fn inference_text_fallback() {
    let detector = InvariantInferenceDetector::new();
    let c = chunk("fn f() {}", None);
    let response = "INVARIANTS FOUND\nINVARIANT 1\nName: Init first\nDescription: call init before use\nPattern: typestate\n";
    let mut next = 1;
    let out = detector.parse_response(response, None, &c, "fn f() {}", &mut next).unwrap();
    assert_eq!(out.len(), 1);
    assert_eq!(out[0].title, "Init first");
    assert_eq!(out[0].invariant_type, InvariantType::TemporalOrdering);
    assert_eq!(out[0].confidence, Confidence::Medium);
    let none = detector.parse_response("NO INVARIANTS", None, &c, "fn f() {}", &mut next).unwrap();
    assert!(none.is_empty());
    assert_eq!(next, 2);
}

#[test]
fn inference_prompt_names_module_and_file() {
    let detector = InvariantInferenceDetector::new();
    let mut c = chunk("", None);
    c.module_name = "crate::conn".to_string();
    c.file_path = "src/conn.rs".to_string();
    let p = detector.user_prompt(&c, "struct Conn;");
    assert!(p.starts_with("Analyze the following Rust code from module `crate::conn`."));
    assert!(p.contains("File: `src/conn.rs`"));
    assert!(p.contains("```rust\nstruct Conn;\n```"));
}

#[test]
fn json_read_twice_gives_it_back() {
    let answer = "Here you go:\n```json\n  [{\"a\": 1}, {\"b\": [2]}]  \n```\nDone.";
    let once = extract_json_array(answer).unwrap();
    assert_eq!(once, "[{\"a\": 1}, {\"b\": [2]}]");
    assert_eq!(extract_json_array(&once).unwrap(), once);
    let obj = extract_json_object("note {\"x\": {\"y\": 2}} end").unwrap();
    assert_eq!(obj, "{\"x\": {\"y\": 2}}");
    assert_eq!(extract_json_object(&obj).unwrap(), obj);
}

#[test]
fn kept_answers_are_numbered_in_order() {
    let detector = InvariantInferenceDetector::new();
    let c = chunk("struct A;\nstruct B;", None);
    let first = answer("A", "A lifecycle", vec![], "resource_lifecycle", "d1", vec![], vec![], "", "high");
    let noise = answer("X", "cfg_if gate", vec![], "protocol", "d", vec![], vec![], "", "low");
    let second = answer("B", "B protocol", vec![], "protocol", "d2", vec![], vec![], "", "low");
    let mut next = 7;
    let out = detector
        .parse_response("ignored", Some(vec![first, noise, second]), &c, "struct A;", &mut next)
        .unwrap();
    assert_eq!(out.len(), 2);
    assert_eq!(out[0].id, 7);
    assert_eq!(out[0].entity, "A");
    assert_eq!(out[1].id, 8);
    assert_eq!(out[1].entity, "B");
    assert_eq!(next, 9);
}
