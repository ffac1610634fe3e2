use design_patterns_agent::parser::module_graph::{ModuleGraph, SourceFile};
use design_patterns_agent::parser::paths::{find_crate_root, path_to_module_name};
use design_patterns_agent::parser::{
    parse_file, parse_file_tolerant, strip_inner_attributes, CodeItem, SelfParam, Visibility,
};

#[test]
fn test_parse_simple_struct() {
    let code = "\n/// A simple struct\npub struct Foo {\n    pub bar: i32,\n}\n";
    let items = parse_file("test.rs", code).unwrap();
    assert_eq!(items.len(), 1);
    match &items[0] {
        CodeItem::Struct(s) => {
            assert_eq!(s.name, "Foo");
            assert_eq!(s.fields.len(), 1);
            assert_eq!(s.doc_comment.as_ref().unwrap(), " A simple struct");
        },
        _ => panic!("Expected struct"),
    }
}

#[test]
fn test_parse_enum() {
    let code = "\npub enum State {\n    Open,\n    Closed,\n}\n";
    let items = parse_file("test.rs", code).unwrap();
    assert_eq!(items.len(), 1);
    match &items[0] {
        CodeItem::Enum(e) => {
            assert_eq!(e.name, "State");
            assert_eq!(e.variants.len(), 2);
        },
        _ => panic!("Expected enum"),
    }
}

#[test]
fn test_find_crate_root_lib() {
    let root = find_crate_root("/tmp/proj", true, false, false, false).unwrap();
    assert_eq!(root, "/tmp/proj/src/lib.rs");
}

#[test]
fn test_find_crate_root_main() {
    let root = find_crate_root("/tmp/proj", false, true, false, false).unwrap();
    assert_eq!(root, "/tmp/proj/src/main.rs");
}

#[test]
fn find_crate_root_missing() {
    let err = find_crate_root("/tmp/proj", false, false, false, false).unwrap_err();
    assert_eq!(err, "Could not find crate root (lib.rs or main.rs) in \"/tmp/proj\"");
    assert_eq!(find_crate_root("/tmp/proj", false, false, true, true).unwrap(), "/tmp/proj/lib.rs");
}

#[test]
fn test_parse_cfg_select_stripping() {
    let code = r#"
cfg_select! {
    feature = "nightly" => {
        fn nightly_fn() {}
    }
    _ => {
        fn stable_fn() {}
    }
}

pub struct Foo {
    pub x: i32,
}
"#;
    let items = parse_file_tolerant("test.rs", code).unwrap();
    assert!(items.iter().any(|item| matches!(item, CodeItem::Struct(s) if s.name == "Foo")));
}

#[test]
fn test_parse_unsafe_extern() {
    let code = r#"
unsafe extern "C" {
    fn foo();
    fn bar(x: i32) -> i32;
}

pub struct Baz {
    pub y: u32,
}
"#;
    let items = parse_file_tolerant("test.rs", code).unwrap();
    assert!(items.iter().any(|item| matches!(item, CodeItem::Struct(s) if s.name == "Baz")));
}

#[test]
fn test_parse_item_level_fallback() {
    let code = r#"
UNPARSEABLE_SYNTAX_HERE! { weird stuff }

pub struct Good {
    pub field: i32,
}

pub fn also_good() -> bool {
    true
}
"#;
    let items = parse_file_tolerant("test.rs", code).unwrap();
    assert!(items.iter().any(|item| matches!(item, CodeItem::Struct(s) if s.name == "Good")));
}

#[test]
fn test_strip_inner_attributes() {
    let code = r#"
#![feature(cfg_select)]
#![allow(unused)]
#![doc = "module doc"]
#![no_std]

pub struct Foo {
    pub x: i32,
}
"#;
    let stripped = strip_inner_attributes(code);
    assert!(!stripped.contains("#![feature"));
    assert!(!stripped.contains("#![no_std"));
    assert!(stripped.contains("#![allow"));
    assert!(stripped.contains("#![doc"));
}

#[test]
fn test_extract_struct_with_phantom_data() {
    let code = r#"
use std::marker::PhantomData;

pub struct TypeState<S> {
    data: String,
    _state: PhantomData<S>,
}
"#;
    let items = parse_file("test.rs", code).unwrap();
    assert_eq!(items.len(), 1);
    match &items[0] {
        CodeItem::Struct(s) => {
            assert_eq!(s.name, "TypeState");
            assert!(s.has_phantom_data);
            assert_eq!(s.visibility, Visibility::Public);
        },
        _ => panic!("Expected struct"),
    }
}

#[test]
fn test_extract_function_with_self() {
    let code = r#"
impl Foo {
    pub fn consume(self) -> Bar {
        Bar
    }

    pub fn borrow(&self) -> i32 {
        42
    }

    pub fn borrow_mut(&mut self) {
    }
}
"#;
    let items = parse_file("test.rs", code).unwrap();
    assert_eq!(items.len(), 1);
    match &items[0] {
        CodeItem::Impl(impl_block) => {
            assert_eq!(impl_block.methods.len(), 3);
            assert_eq!(impl_block.methods[0].self_param, Some(SelfParam::Owned));
            assert_eq!(impl_block.methods[1].self_param, Some(SelfParam::Reference));
            assert_eq!(impl_block.methods[2].self_param, Some(SelfParam::MutReference));
        },
        _ => panic!("Expected impl block"),
    }
}

#[test]
fn test_extract_doc_comments() {
    let code = r#"
/// This is a doc comment
/// with multiple lines
pub struct Documented {
    field: i32,
}
"#;
    let items = parse_file("test.rs", code).unwrap();
    match &items[0] {
        CodeItem::Struct(s) => {
            let doc = s.doc_comment.as_ref().unwrap();
            assert!(doc.contains("This is a doc comment"));
            assert!(doc.contains("with multiple lines"));
        },
        _ => panic!("Expected struct"),
    }
}

fn file(path: &str, content: &str) -> SourceFile {
    SourceFile { path: path.to_string(), content: Ok(content.to_string()) }
}

fn test_crate() -> Vec<SourceFile> {
    vec![
        file("/tmp/t/src/lib.rs", "mod foo;\npub struct RootStruct {}"),
        file("/tmp/t/src/foo.rs", "pub fn foo() {}"),
    ]
}

#[test]
fn test_module_graph_creation() {
    let graph = ModuleGraph::from_crate_root("/tmp/t/src/lib.rs", &test_crate()).unwrap();
    let root = graph.root();
    assert!(root.is_root);
    assert_eq!(root.name, "crate");
    assert!(root.submodules.contains(&"foo".to_string()));
}

#[test]
fn test_module_children() {
    let graph = ModuleGraph::from_crate_root("/tmp/t/src/lib.rs", &test_crate()).unwrap();
    let children = graph.children("crate");
    assert_eq!(children.len(), 1);
    assert_eq!(children[0].name, "foo");
}

#[test]
fn test_path_to_module_name() {
    let name = path_to_module_name("/project/src", "/project/src/foo/bar.rs").unwrap();
    assert_eq!(name, "foo::bar");
}

#[test]
fn path_to_module_name_root_and_outside() {
    assert_eq!(path_to_module_name("/project/src", "/project/src/lib.rs").unwrap(), "crate");
    assert_eq!(path_to_module_name("/project/src", "/project/src/a/mod.rs").unwrap(), "a");
    assert!(path_to_module_name("/project/src", "/other/x.rs").is_err());
}

#[test]
fn test_pub_mod_declarations() {
    let files = vec![
        file(
            "/tmp/p/src/lib.rs",
            "pub mod foo;\npub(crate) mod bar;\nmod baz;\n// mod commented_out;\n",
        ),
        file("/tmp/p/src/foo.rs", "pub fn foo() {}"),
        file("/tmp/p/src/bar.rs", "pub fn bar() {}"),
        file("/tmp/p/src/baz.rs", "pub fn baz() {}"),
    ];
    let graph = ModuleGraph::from_crate_root("/tmp/p/src/lib.rs", &files).unwrap();
    let root = graph.root();
    assert!(root.submodules.contains(&"foo".to_string()));
    assert!(root.submodules.contains(&"bar".to_string()));
    assert!(root.submodules.contains(&"baz".to_string()));
    assert!(!root.submodules.contains(&"commented_out".to_string()));
}

#[test]
fn module_graph_records_unreadable_files() {
    let files = vec![
        file("/tmp/q/src/lib.rs", "mod a;"),
        SourceFile { path: "/tmp/q/src/a.rs".to_string(), content: Err("denied".to_string()) },
    ];
    let graph = ModuleGraph::from_crate_root("/tmp/q/src/lib.rs", &files).unwrap();
    assert_eq!(graph.parse_failures.len(), 1);
    assert_eq!(graph.parse_failures[0].file_path, "/tmp/q/src/a.rs");
    assert_eq!(graph.parse_failures[0].error, "read error: denied");
}

#[test]
fn module_graph_without_root_is_refused() {
    let files = vec![file("/tmp/r/src/a.rs", "pub fn a() {}")];
    assert!(ModuleGraph::from_crate_root("/tmp/r/src/lib.rs", &files).is_err());
}
