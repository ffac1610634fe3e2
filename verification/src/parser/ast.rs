//! The code items extracted from a Rust source file, with their
//! mathematical views (every `String` seen as its `Seq<char>`).
use vstd::prelude::*;
use crate::dup::{Dup, views, opt_view, dup_opt, dup_vec, dup_strings};

verus! {

/// Visibility of an item.
#[derive(Debug, Clone, Copy, PartialEq, Eq, Structural)]
pub enum Visibility {
    Public,
    Private,
    Crate,
    Restricted,
}

/// How a method takes its receiver.
#[derive(Debug, Clone, Copy, PartialEq, Eq, Structural)]
pub enum SelfParam {
    /// `self` (also `mut self`, which counts as a mutable receiver)
    Owned,
    /// `&self`
    Reference,
    /// `&mut self`
    MutReference,
}

#[derive(Debug, Clone)]
pub struct SourceLocation {
    pub file_path: String,
    pub line: usize,
}

pub struct SourceLocationV {
    pub file_path: Seq<char>,
    pub line: usize,
}

impl View for SourceLocation {
    type V = SourceLocationV;

    open spec fn view(&self) -> SourceLocationV {
        SourceLocationV { file_path: self.file_path@, line: self.line }
    }
}

impl Dup for SourceLocation {
    fn dup(&self) -> (res: Self) {
        SourceLocation { file_path: self.file_path.clone(), line: self.line }
    }
}

#[derive(Debug, Clone)]
pub struct Field {
    pub name: String,
    pub ty: String,
}

pub struct FieldV {
    pub name: Seq<char>,
    pub ty: Seq<char>,
}

impl View for Field {
    type V = FieldV;

    open spec fn view(&self) -> FieldV {
        FieldV { name: self.name@, ty: self.ty@ }
    }
}

impl Dup for Field {
    fn dup(&self) -> (res: Self) {
        Field { name: self.name.clone(), ty: self.ty.clone() }
    }
}

#[derive(Debug, Clone)]
pub struct StructDef {
    pub name: String,
    pub generics: String,
    pub fields: Vec<Field>,
    pub visibility: Visibility,
    pub doc_comment: Option<String>,
    pub has_phantom_data: bool,
    pub source_location: SourceLocation,
}

pub struct StructDefV {
    pub name: Seq<char>,
    pub generics: Seq<char>,
    pub fields: Seq<FieldV>,
    pub visibility: Visibility,
    pub doc_comment: Option<Seq<char>>,
    pub has_phantom_data: bool,
    pub source_location: SourceLocationV,
}

impl View for StructDef {
    type V = StructDefV;

    open spec fn view(&self) -> StructDefV {
        StructDefV {
            name: self.name@,
            generics: self.generics@,
            fields: views(self.fields@),
            visibility: self.visibility,
            doc_comment: opt_view(self.doc_comment),
            has_phantom_data: self.has_phantom_data,
            source_location: self.source_location@,
        }
    }
}

impl Dup for StructDef {
    fn dup(&self) -> (res: Self) {
        StructDef {
            name: self.name.clone(),
            generics: self.generics.clone(),
            fields: dup_vec(&self.fields),
            visibility: self.visibility,
            doc_comment: dup_opt(&self.doc_comment),
            has_phantom_data: self.has_phantom_data,
            source_location: self.source_location.dup(),
        }
    }
}

#[derive(Debug, Clone)]
pub struct Variant {
    pub name: String,
    pub fields: Vec<Field>,
}

pub struct VariantV {
    pub name: Seq<char>,
    pub fields: Seq<FieldV>,
}

impl View for Variant {
    type V = VariantV;

    open spec fn view(&self) -> VariantV {
        VariantV { name: self.name@, fields: views(self.fields@) }
    }
}

impl Dup for Variant {
    fn dup(&self) -> (res: Self) {
        Variant { name: self.name.clone(), fields: dup_vec(&self.fields) }
    }
}

#[derive(Debug, Clone)]
pub struct EnumDef {
    pub name: String,
    pub generics: String,
    pub variants: Vec<Variant>,
    pub visibility: Visibility,
    pub doc_comment: Option<String>,
    pub source_location: SourceLocation,
}

pub struct EnumDefV {
    pub name: Seq<char>,
    pub generics: Seq<char>,
    pub variants: Seq<VariantV>,
    pub visibility: Visibility,
    pub doc_comment: Option<Seq<char>>,
    pub source_location: SourceLocationV,
}

impl View for EnumDef {
    type V = EnumDefV;

    open spec fn view(&self) -> EnumDefV {
        EnumDefV {
            name: self.name@,
            generics: self.generics@,
            variants: views(self.variants@),
            visibility: self.visibility,
            doc_comment: opt_view(self.doc_comment),
            source_location: self.source_location@,
        }
    }
}

impl Dup for EnumDef {
    fn dup(&self) -> (res: Self) {
        EnumDef {
            name: self.name.clone(),
            generics: self.generics.clone(),
            variants: dup_vec(&self.variants),
            visibility: self.visibility,
            doc_comment: dup_opt(&self.doc_comment),
            source_location: self.source_location.dup(),
        }
    }
}

#[derive(Debug, Clone)]
pub struct FunctionDef {
    pub name: String,
    pub signature: String,
    pub is_method: bool,
    pub self_param: Option<SelfParam>,
    pub visibility: Visibility,
    pub doc_comment: Option<String>,
    /// A short rendering of the body, where one was kept.
    pub body_summary: Option<String>,
    /// The paths of the item's attributes other than doc comments.
    pub attributes: Vec<String>,
    pub is_unsafe: bool,
    pub source_location: SourceLocation,
}

pub struct FunctionDefV {
    pub name: Seq<char>,
    pub signature: Seq<char>,
    pub is_method: bool,
    pub self_param: Option<SelfParam>,
    pub visibility: Visibility,
    pub doc_comment: Option<Seq<char>>,
    pub body_summary: Option<Seq<char>>,
    pub attributes: Seq<Seq<char>>,
    pub is_unsafe: bool,
    pub source_location: SourceLocationV,
}

impl View for FunctionDef {
    type V = FunctionDefV;

    open spec fn view(&self) -> FunctionDefV {
        FunctionDefV {
            name: self.name@,
            signature: self.signature@,
            is_method: self.is_method,
            self_param: self.self_param,
            visibility: self.visibility,
            doc_comment: opt_view(self.doc_comment),
            body_summary: opt_view(self.body_summary),
            attributes: views(self.attributes@),
            is_unsafe: self.is_unsafe,
            source_location: self.source_location@,
        }
    }
}

impl Dup for FunctionDef {
    fn dup(&self) -> (res: Self) {
        let attributes = dup_strings(&self.attributes);
        proof {
            assert(views(attributes@) =~= views(self.attributes@));
        }
        FunctionDef {
            name: self.name.clone(),
            signature: self.signature.clone(),
            is_method: self.is_method,
            self_param: self.self_param,
            visibility: self.visibility,
            doc_comment: dup_opt(&self.doc_comment),
            body_summary: dup_opt(&self.body_summary),
            attributes,
            is_unsafe: self.is_unsafe,
            source_location: self.source_location.dup(),
        }
    }
}

#[derive(Debug, Clone)]
pub struct TraitDef {
    pub name: String,
    pub methods: Vec<String>,
    pub visibility: Visibility,
    pub doc_comment: Option<String>,
    pub source_location: SourceLocation,
}

pub struct TraitDefV {
    pub name: Seq<char>,
    pub methods: Seq<Seq<char>>,
    pub visibility: Visibility,
    pub doc_comment: Option<Seq<char>>,
    pub source_location: SourceLocationV,
}

impl View for TraitDef {
    type V = TraitDefV;

    open spec fn view(&self) -> TraitDefV {
        TraitDefV {
            name: self.name@,
            methods: views(self.methods@),
            visibility: self.visibility,
            doc_comment: opt_view(self.doc_comment),
            source_location: self.source_location@,
        }
    }
}

impl Dup for TraitDef {
    fn dup(&self) -> (res: Self) {
        let methods = dup_strings(&self.methods);
        proof {
            assert(views(methods@) =~= views(self.methods@));
        }
        TraitDef {
            name: self.name.clone(),
            methods,
            visibility: self.visibility,
            doc_comment: dup_opt(&self.doc_comment),
            source_location: self.source_location.dup(),
        }
    }
}

#[derive(Debug, Clone)]
pub struct ImplBlock {
    pub trait_name: Option<String>,
    pub self_type: String,
    pub methods: Vec<FunctionDef>,
    pub source_location: SourceLocation,
}

pub struct ImplBlockV {
    pub trait_name: Option<Seq<char>>,
    pub self_type: Seq<char>,
    pub methods: Seq<FunctionDefV>,
    pub source_location: SourceLocationV,
}

impl View for ImplBlock {
    type V = ImplBlockV;

    open spec fn view(&self) -> ImplBlockV {
        ImplBlockV {
            trait_name: opt_view(self.trait_name),
            self_type: self.self_type@,
            methods: views(self.methods@),
            source_location: self.source_location@,
        }
    }
}

impl Dup for ImplBlock {
    fn dup(&self) -> (res: Self) {
        ImplBlock {
            trait_name: dup_opt(&self.trait_name),
            self_type: self.self_type.clone(),
            methods: dup_vec(&self.methods),
            source_location: self.source_location.dup(),
        }
    }
}

#[derive(Debug, Clone)]
pub struct TypeAlias {
    pub name: String,
    pub target: String,
    pub visibility: Visibility,
    pub source_location: SourceLocation,
}

pub struct TypeAliasV {
    pub name: Seq<char>,
    pub target: Seq<char>,
    pub visibility: Visibility,
    pub source_location: SourceLocationV,
}

impl View for TypeAlias {
    type V = TypeAliasV;

    open spec fn view(&self) -> TypeAliasV {
        TypeAliasV {
            name: self.name@,
            target: self.target@,
            visibility: self.visibility,
            source_location: self.source_location@,
        }
    }
}

impl Dup for TypeAlias {
    fn dup(&self) -> (res: Self) {
        TypeAlias {
            name: self.name.clone(),
            target: self.target.clone(),
            visibility: self.visibility,
            source_location: self.source_location.dup(),
        }
    }
}

#[derive(Debug, Clone)]
pub enum CodeItem {
    Struct(StructDef),
    Enum(EnumDef),
    Function(FunctionDef),
    Trait(TraitDef),
    Impl(ImplBlock),
    TypeAlias(TypeAlias),
}

pub enum CodeItemV {
    Struct(StructDefV),
    Enum(EnumDefV),
    Function(FunctionDefV),
    Trait(TraitDefV),
    Impl(ImplBlockV),
    TypeAlias(TypeAliasV),
}

impl View for CodeItem {
    type V = CodeItemV;

    open spec fn view(&self) -> CodeItemV {
        match self {
            CodeItem::Struct(s) => CodeItemV::Struct(s@),
            CodeItem::Enum(e) => CodeItemV::Enum(e@),
            CodeItem::Function(f) => CodeItemV::Function(f@),
            CodeItem::Trait(t) => CodeItemV::Trait(t@),
            CodeItem::Impl(i) => CodeItemV::Impl(i@),
            CodeItem::TypeAlias(a) => CodeItemV::TypeAlias(a@),
        }
    }
}

impl Dup for CodeItem {
    fn dup(&self) -> (res: Self) {
        match self {
            CodeItem::Struct(s) => CodeItem::Struct(s.dup()),
            CodeItem::Enum(e) => CodeItem::Enum(e.dup()),
            CodeItem::Function(f) => CodeItem::Function(f.dup()),
            CodeItem::Trait(t) => CodeItem::Trait(t.dup()),
            CodeItem::Impl(i) => CodeItem::Impl(i.dup()),
            CodeItem::TypeAlias(a) => CodeItem::TypeAlias(a.dup()),
        }
    }
}

} // verus!
