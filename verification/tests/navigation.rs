use design_patterns_agent::navigation::context::{build_chunks, cluster_by_type_affinity};
use design_patterns_agent::navigation::explorer::Explorer;
use design_patterns_agent::navigation::priority::{prioritize_chunks, score_chunk};
use design_patterns_agent::navigation::{AnalysisChunk, Navigator};
use design_patterns_agent::parser::module_graph::{Module, ModuleGraph, SourceFile};
use design_patterns_agent::parser::{
    CodeItem, Field, FunctionDef, ImplBlock, SourceLocation, StructDef, Visibility,
};

fn make_struct(name: &str, fields: Vec<(&str, &str)>) -> StructDef {
    StructDef {
        name: name.to_string(),
        generics: String::new(),
        fields: fields
            .into_iter()
            .map(|(n, t)| Field { name: n.to_string(), ty: t.to_string() })
            .collect(),
        visibility: Visibility::Public,
        doc_comment: None,
        has_phantom_data: false,
        source_location: SourceLocation { file_path: "test.rs".to_string(), line: 1 },
    }
}

fn make_function(name: &str, sig: &str) -> FunctionDef {
    FunctionDef {
        name: name.to_string(),
        signature: sig.to_string(),
        is_method: false,
        self_param: None,
        visibility: Visibility::Public,
        doc_comment: None,
        body_summary: None,
        attributes: vec![],
        is_unsafe: false,
        source_location: SourceLocation { file_path: "test.rs".to_string(), line: 1 },
    }
}

fn make_module(name: &str, items: Vec<CodeItem>) -> Module {
    Module {
        name: name.to_string(),
        path: "test.rs".to_string(),
        items,
        submodules: vec![],
        is_root: false,
    }
}

#[test]
fn test_small_module_single_chunk() {
    let module = make_module(
        "test",
        vec![
            CodeItem::Struct(make_struct("Conn", vec![("fd", "i32"), ("open", "bool")])),
            CodeItem::Function(make_function("connect", "fn connect() -> Conn")),
        ],
    );
    let chunks = build_chunks(&module, "// source", 4000);
    assert_eq!(chunks.len(), 1);
    assert!(chunks[0].sibling_summary.is_none());
}

#[test]
fn test_empty_module_no_chunks() {
    let module = make_module("empty", vec![]);
    let chunks = build_chunks(&module, "", 4000);
    assert!(chunks.is_empty());
}

#[test]
fn test_type_affinity_clustering() {
    let imp = ImplBlock {
        trait_name: None,
        self_type: "Conn".to_string(),
        methods: vec![make_function("close", "fn close(&mut self)")],
        source_location: SourceLocation { file_path: "test.rs".to_string(), line: 1 },
    };
    let clusters = cluster_by_type_affinity(
        vec![make_struct("Conn", vec![("fd", "i32")])],
        vec![],
        vec![make_function("unrelated", "fn unrelated()")],
        vec![],
        vec![imp],
    );
    assert_eq!(clusters.len(), 2);
    assert_eq!(clusters[0].anchor_type.as_deref(), Some("Conn"));
    assert_eq!(clusters[0].impl_blocks.len(), 1);
    assert_eq!(clusters[1].functions.len(), 1);
}

#[test]
fn large_module_is_split_with_sibling_summaries() {
    let module = make_module(
        "big",
        vec![
            CodeItem::Struct(make_struct("Alpha", vec![("a", "i32")])),
            CodeItem::Struct(make_struct("Beta", vec![("b", "i32")])),
        ],
    );
    let chunks = build_chunks(&module, "struct Alpha;\nstruct Beta;", 1);
    assert_eq!(chunks.len(), 2);
    assert_eq!(chunks[0].chunk_id, "big#0");
    assert_eq!(chunks[1].chunk_id, "big#1");
    assert_eq!(
        chunks[0].sibling_summary.as_deref(),
        Some("Other parts of this module contain: struct Beta")
    );
}

fn make_chunk(module_name: &str) -> AnalysisChunk {
    AnalysisChunk {
        chunk_id: module_name.to_string(),
        module_name: module_name.to_string(),
        file_path: "test.rs".to_string(),
        raw_source: String::new(),
        structs: vec![],
        enums: vec![],
        functions: vec![],
        traits: vec![],
        impl_blocks: vec![],
        sibling_summary: None,
    }
}

#[test]
fn test_priority_prefix_boost() {
    let c1 = make_chunk("std::sync::mutex");
    let c2 = make_chunk("std::fmt::display");
    let chunks = prioritize_chunks(vec![c2, c1], &vec!["sync".to_string()]);
    assert_eq!(chunks[0].module_name, "std::sync::mutex");
}

#[test]
fn test_phantom_data_boost() {
    let mut c1 = make_chunk("mod_a");
    c1.structs.push(StructDef {
        name: "Foo".to_string(),
        generics: String::new(),
        fields: vec![],
        visibility: Visibility::Public,
        doc_comment: None,
        has_phantom_data: true,
        source_location: SourceLocation { file_path: "test.rs".to_string(), line: 1 },
    });
    let c2 = make_chunk("mod_b");
    let chunks = prioritize_chunks(vec![c2, c1], &vec![]);
    assert_eq!(chunks[0].module_name, "mod_a");
}

#[test]
fn test_priority_prefix_1000_boost() {
    let c = make_chunk("std::sync::mutex");
    let score = score_chunk(&c, &vec!["sync".to_string()]);
    assert!(score >= 1000, "Priority prefix should give at least 1000 points, got {}", score);
}

#[test]
fn test_safety_keyword_boost() {
    let mut c1 = make_chunk("mod_a");
    c1.raw_source = "// SAFETY: must hold lock".to_string();
    let c2 = make_chunk("mod_b");
    let chunks = prioritize_chunks(vec![c2, c1], &vec![]);
    assert_eq!(chunks[0].module_name, "mod_a");
}

#[test]
fn prioritize_keeps_order_of_equal_scores() {
    let chunks = prioritize_chunks(vec![make_chunk("a"), make_chunk("b"), make_chunk("c")], &vec![]);
    let names: Vec<&str> = chunks.iter().map(|c| c.module_name.as_str()).collect();
    assert_eq!(names, vec!["a", "b", "c"]);
}

const CONNECTION_LIB: &str = r#"
use std::marker::PhantomData;

pub struct Connection {
    fd: i32,
    is_open: bool,
}

impl Connection {
    // Must call connect() before send()
    pub fn connect(&mut self) -> bool {
        if self.is_open { return false; }
        self.is_open = true;
        true
    }

    pub fn send(&self, data: &[u8]) -> Result<(), String> {
        if !self.is_open {
            return Err("not connected".to_string());
        }
        Ok(())
    }

    pub fn close(&mut self) {
        self.is_open = false;
    }
}
"#;

fn one_file_crate(content: &str) -> Vec<SourceFile> {
    vec![SourceFile { path: "/tmp/c/src/lib.rs".to_string(), content: Ok(content.to_string()) }]
}

#[test]
fn test_explorer_creation() {
    let graph = ModuleGraph::from_crate_root("/tmp/c/src/lib.rs", &one_file_crate(CONNECTION_LIB)).unwrap();
    let explorer = Explorer::new(&graph, 10, 4000);
    assert_eq!(explorer.visited_count(), 0);
}

#[test]
fn test_explorer_finds_chunks() {
    let graph = ModuleGraph::from_crate_root("/tmp/c/src/lib.rs", &one_file_crate(CONNECTION_LIB)).unwrap();
    let mut explorer = Explorer::new(&graph, 10, 4000);
    let chunks = explorer.explore();
    assert!(!chunks.is_empty());
    assert_eq!(explorer.visited_count(), 1);
    assert!(chunks[0].raw_source.contains("Must call connect()"));
}

#[test]
fn test_explorer_respects_max_depth() {
    let files = vec![
        SourceFile { path: "/tmp/d/src/lib.rs".to_string(), content: Ok("mod a;\npub struct R;".to_string()) },
        SourceFile { path: "/tmp/d/src/a.rs".to_string(), content: Ok("pub struct A;".to_string()) },
    ];
    let graph = ModuleGraph::from_crate_root("/tmp/d/src/lib.rs", &files).unwrap();
    let mut explorer = Explorer::new(&graph, 0, 4000);
    let _results = explorer.explore();
    assert_eq!(explorer.visited_count(), 1);
    let mut deeper = Explorer::new(&graph, 1, 4000);
    let chunks = deeper.explore();
    assert_eq!(deeper.visited_count(), 2);
    assert_eq!(chunks.len(), 2);
    assert_eq!(chunks[1].module_name, "a");
}

const MAIN_STRUCT_LIB: &str = r#"
pub struct MainStruct {
    field: i32,
}

impl MainStruct {
    pub fn new(val: i32) -> Self {
        Self { field: val }
    }
}
"#;

#[test]
fn test_navigator_creation() {
    let navigator = Navigator::new("/tmp/c/src/lib.rs", &one_file_crate(MAIN_STRUCT_LIB), 10, 4000);
    assert!(navigator.is_ok());
}

#[test]
fn test_navigator_module_count() {
    let navigator = Navigator::new("/tmp/c/src/lib.rs", &one_file_crate(MAIN_STRUCT_LIB), 10, 4000).unwrap();
    assert_eq!(navigator.module_count(), 1);
}

#[test]
fn test_navigator_explore() {
    let navigator = Navigator::new("/tmp/c/src/lib.rs", &one_file_crate(MAIN_STRUCT_LIB), 10, 4000).unwrap();
    let _explorer = navigator.explore();
}

#[test]
fn second_exploration_visits_nothing() {
    let files = vec![
        SourceFile { path: "/tmp/e/src/lib.rs".to_string(), content: Ok("mod a;\npub struct R;".to_string()) },
        SourceFile { path: "/tmp/e/src/a.rs".to_string(), content: Ok("pub struct A;".to_string()) },
    ];
    let graph = ModuleGraph::from_crate_root("/tmp/e/src/lib.rs", &files).unwrap();
    let mut explorer = Explorer::new(&graph, 5, 4000);
    let first = explorer.explore();
    assert_eq!(first.len(), 2);
    assert_eq!(first[0].module_name, "crate");
    assert_eq!(explorer.visited_count(), 2);
    let second = explorer.explore();
    assert!(second.is_empty());
    assert_eq!(explorer.visited_count(), 2);
}

#[test]
fn split_chunks_hold_each_item_once() {
    let imp = ImplBlock {
        trait_name: None,
        self_type: "Beta".to_string(),
        methods: vec![make_function("go", "fn go(&self)")],
        source_location: SourceLocation { file_path: "test.rs".to_string(), line: 1 },
    };
    let module = make_module(
        "mixed",
        vec![
            CodeItem::Struct(make_struct("Alpha", vec![("a", "i32")])),
            CodeItem::Struct(make_struct("Beta", vec![("b", "i32")])),
            CodeItem::Function(make_function("make_alpha", "fn make_alpha() -> Alpha")),
            CodeItem::Function(make_function("helper", "fn helper()")),
            CodeItem::Impl(imp),
        ],
    );
    let chunks = build_chunks(&module, "struct Alpha;\nstruct Beta;\nfn helper() {}", 1);
    assert!(chunks.len() > 1);
    let mut fns: Vec<String> = chunks.iter().flat_map(|c| c.functions.iter().map(|f| f.name.clone())).collect();
    fns.sort();
    assert_eq!(fns, vec!["helper".to_string(), "make_alpha".to_string()]);
    let structs: Vec<String> = chunks.iter().flat_map(|c| c.structs.iter().map(|s| s.name.clone())).collect();
    assert_eq!(structs, vec!["Alpha".to_string(), "Beta".to_string()]);
    let impls: usize = chunks.iter().map(|c| c.impl_blocks.len()).sum();
    assert_eq!(impls, 1);
    for c in &chunks {
        assert_eq!(c.module_name, "mixed");
        assert_eq!(c.file_path, "test.rs");
    }
}

#[test]
fn exploration_is_breadth_first_within_depth() {
    let files = vec![
        SourceFile { path: "/tmp/g/src/lib.rs".to_string(), content: Ok("mod a;\nmod b;\npub struct R;".to_string()) },
        SourceFile { path: "/tmp/g/src/a.rs".to_string(), content: Ok("mod c;\npub struct A;".to_string()) },
        SourceFile { path: "/tmp/g/src/b.rs".to_string(), content: Ok("pub struct B;".to_string()) },
        SourceFile { path: "/tmp/g/src/a/c.rs".to_string(), content: Ok("pub struct C;".to_string()) },
    ];
    let graph = ModuleGraph::from_crate_root("/tmp/g/src/lib.rs", &files).unwrap();
    let mut shallow = Explorer::new(&graph, 1, 4000);
    let names: Vec<String> = shallow.explore().into_iter().map(|c| c.module_name).collect();
    assert_eq!(names, vec!["crate".to_string(), "a".to_string(), "b".to_string()]);
    let mut deep = Explorer::new(&graph, 2, 4000);
    let names: Vec<String> = deep.explore().into_iter().map(|c| c.module_name).collect();
    assert_eq!(names, vec!["crate".to_string(), "a".to_string(), "b".to_string(), "a::c".to_string()]);
    assert_eq!(deep.visited_count(), 4);
}
