//! Parsing Rust source into code items, and the module graph of a crate.
pub mod ast;
pub mod extract;
pub mod module_graph;
pub mod paths;
pub mod recovery;
pub mod syn_bridge;
pub mod syntax;
pub mod workspace;

pub use ast::{
    CodeItem, EnumDef, Field, FunctionDef, ImplBlock, SelfParam, SourceLocation, StructDef,
    TraitDef, TypeAlias, Variant, Visibility,
};
pub use extract::extract_items;
pub use recovery::{
    parse_file, parse_file_tolerant, parse_items_individually, split_top_level_items,
    strip_cfg_select_blocks, strip_inner_attributes,
};
