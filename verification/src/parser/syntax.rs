//! The syntax tree that `syn` builds for a source file, held as plain values:
//! identifiers, the printed token text of types, generics and signatures,
//! visibility, attributes and line numbers. Only what the item extraction
//! reads is kept.
use vstd::prelude::*;
use crate::dup::{views, opt_view};

verus! {

/// An outer attribute: its printed path, and the string literal it is
/// set to when it has the form `#[path = "..."]` (as doc comments do).
pub struct RawAttr {
    pub path: String,
    pub str_value: Option<String>,
}

pub struct RawAttrV {
    pub path: Seq<char>,
    pub str_value: Option<Seq<char>>,
}

impl View for RawAttr {
    type V = RawAttrV;

    open spec fn view(&self) -> RawAttrV {
        RawAttrV { path: self.path@, str_value: opt_view(self.str_value) }
    }
}

/// A field: its name (none for a tuple field) and its printed type.
pub struct RawField {
    pub ident: Option<String>,
    pub ty: String,
}

pub struct RawFieldV {
    pub ident: Option<Seq<char>>,
    pub ty: Seq<char>,
}

impl View for RawField {
    type V = RawFieldV;

    open spec fn view(&self) -> RawFieldV {
        RawFieldV { ident: opt_view(self.ident), ty: self.ty@ }
    }
}

/// The receiver of a method: whether it is borrowed (`&`) and whether `mut` is written.
pub struct RawReceiver {
    pub is_ref: bool,
    pub is_mut: bool,
}

/// A function signature.
pub struct RawSig {
    pub ident: String,
    /// The printed tokens of the whole signature.
    pub text: String,
    pub receiver: Option<RawReceiver>,
    pub is_unsafe: bool,
}

pub struct RawSigV {
    pub ident: Seq<char>,
    pub text: Seq<char>,
    pub receiver: Option<(bool, bool)>,
    pub is_unsafe: bool,
}

impl View for RawSig {
    type V = RawSigV;

    open spec fn view(&self) -> RawSigV {
        RawSigV {
            ident: self.ident@,
            text: self.text@,
            receiver: match self.receiver {
                Some(r) => Some((r.is_ref, r.is_mut)),
                None => None,
            },
            is_unsafe: self.is_unsafe,
        }
    }
}

/// A function, free or inside an impl block.
pub struct RawFn {
    /// The printed tokens of the visibility (empty when none is written).
    pub vis: String,
    pub attrs: Vec<RawAttr>,
    pub sig: RawSig,
    pub line: usize,
}

pub struct RawFnV {
    pub vis: Seq<char>,
    pub attrs: Seq<RawAttrV>,
    pub sig: RawSigV,
    pub line: usize,
}

impl View for RawFn {
    type V = RawFnV;

    open spec fn view(&self) -> RawFnV {
        RawFnV { vis: self.vis@, attrs: views(self.attrs@), sig: self.sig@, line: self.line }
    }
}

pub struct RawStruct {
    pub ident: String,
    pub generics: String,
    /// The printed tokens of the visibility (empty when none is written).
    pub vis: String,
    pub attrs: Vec<RawAttr>,
    pub fields: Vec<RawField>,
    pub line: usize,
}

pub struct RawStructV {
    pub ident: Seq<char>,
    pub generics: Seq<char>,
    pub vis: Seq<char>,
    pub attrs: Seq<RawAttrV>,
    pub fields: Seq<RawFieldV>,
    pub line: usize,
}

impl View for RawStruct {
    type V = RawStructV;

    open spec fn view(&self) -> RawStructV {
        RawStructV {
            ident: self.ident@,
            generics: self.generics@,
            vis: self.vis@,
            attrs: views(self.attrs@),
            fields: views(self.fields@),
            line: self.line,
        }
    }
}

pub struct RawVariant {
    pub ident: String,
    pub fields: Vec<RawField>,
}

pub struct RawVariantV {
    pub ident: Seq<char>,
    pub fields: Seq<RawFieldV>,
}

impl View for RawVariant {
    type V = RawVariantV;

    open spec fn view(&self) -> RawVariantV {
        RawVariantV { ident: self.ident@, fields: views(self.fields@) }
    }
}

pub struct RawEnum {
    pub ident: String,
    pub generics: String,
    /// The printed tokens of the visibility (empty when none is written).
    pub vis: String,
    pub attrs: Vec<RawAttr>,
    pub variants: Vec<RawVariant>,
    pub line: usize,
}

pub struct RawEnumV {
    pub ident: Seq<char>,
    pub generics: Seq<char>,
    pub vis: Seq<char>,
    pub attrs: Seq<RawAttrV>,
    pub variants: Seq<RawVariantV>,
    pub line: usize,
}

impl View for RawEnum {
    type V = RawEnumV;

    open spec fn view(&self) -> RawEnumV {
        RawEnumV {
            ident: self.ident@,
            generics: self.generics@,
            vis: self.vis@,
            attrs: views(self.attrs@),
            variants: views(self.variants@),
            line: self.line,
        }
    }
}

/// A trait: the items inside it are kept as the name of each method,
/// and `None` for every item that is not a method.
pub struct RawTrait {
    pub ident: String,
    /// The printed tokens of the visibility (empty when none is written).
    pub vis: String,
    pub attrs: Vec<RawAttr>,
    pub items: Vec<Option<String>>,
    pub line: usize,
}

pub struct RawTraitV {
    pub ident: Seq<char>,
    pub vis: Seq<char>,
    pub attrs: Seq<RawAttrV>,
    pub items: Seq<Option<Seq<char>>>,
    pub line: usize,
}

/// The views of optional strings.
pub open spec fn opt_views(v: Seq<Option<String>>) -> Seq<Option<Seq<char>>> {
    v.map_values(|o: Option<String>| opt_view(o))
}

impl View for RawTrait {
    type V = RawTraitV;

    open spec fn view(&self) -> RawTraitV {
        RawTraitV {
            ident: self.ident@,
            vis: self.vis@,
            attrs: views(self.attrs@),
            items: opt_views(self.items@),
            line: self.line,
        }
    }
}

/// An impl block: the items inside it are kept as the function for every
/// method, and `None` for every item that is not a method.
pub struct RawImpl {
    pub self_ty: String,
    pub trait_path: Option<String>,
    pub items: Vec<Option<RawFn>>,
    pub line: usize,
}

pub struct RawImplV {
    pub self_ty: Seq<char>,
    pub trait_path: Option<Seq<char>>,
    pub items: Seq<Option<RawFnV>>,
    pub line: usize,
}

impl View for RawImpl {
    type V = RawImplV;

    open spec fn view(&self) -> RawImplV {
        RawImplV {
            self_ty: self.self_ty@,
            trait_path: opt_view(self.trait_path),
            items: self.items@.map_values(|o: Option<RawFn>| opt_view(o)),
            line: self.line,
        }
    }
}

pub struct RawTypeAlias {
    pub ident: String,
    /// The printed tokens of the visibility (empty when none is written).
    pub vis: String,
    pub target: String,
    pub line: usize,
}

pub struct RawTypeAliasV {
    pub ident: Seq<char>,
    pub vis: Seq<char>,
    pub target: Seq<char>,
    pub line: usize,
}

impl View for RawTypeAlias {
    type V = RawTypeAliasV;

    open spec fn view(&self) -> RawTypeAliasV {
        RawTypeAliasV {
            ident: self.ident@,
            vis: self.vis@,
            target: self.target@,
            line: self.line,
        }
    }
}

/// A top-level item of a source file.
pub enum RawItem {
    Struct(RawStruct),
    Enum(RawEnum),
    Fn(RawFn),
    Trait(RawTrait),
    Impl(RawImpl),
    TypeAlias(RawTypeAlias),
    /// Any other item (`use`, `mod`, `const`, macros, ...).
    Other,
}

pub enum RawItemV {
    Struct(RawStructV),
    Enum(RawEnumV),
    Fn(RawFnV),
    Trait(RawTraitV),
    Impl(RawImplV),
    TypeAlias(RawTypeAliasV),
    Other,
}

impl View for RawItem {
    type V = RawItemV;

    open spec fn view(&self) -> RawItemV {
        match self {
            RawItem::Struct(s) => RawItemV::Struct(s@),
            RawItem::Enum(e) => RawItemV::Enum(e@),
            RawItem::Fn(f) => RawItemV::Fn(f@),
            RawItem::Trait(t) => RawItemV::Trait(t@),
            RawItem::Impl(i) => RawItemV::Impl(i@),
            RawItem::TypeAlias(a) => RawItemV::TypeAlias(a@),
            RawItem::Other => RawItemV::Other,
        }
    }
}

} // verus!
