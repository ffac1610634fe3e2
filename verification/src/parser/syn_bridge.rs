//! Calls into `syn`: parsing a source file, or one item, into the plain
//! syntax tree of `syntax.rs`.
//!
//! Nothing here is proved. What `syn` makes of a text is a function of the
//! text alone; `syn_file` and `syn_item` name it, and the two parsing
//! functions promise only that their results are those names applied to
//! their arguments. The `raw_*` functions turn `syn`'s nodes into the plain
//! types, field by field, printing types and signatures with `quote`.
use vstd::prelude::*;
use quote::ToTokens;
use crate::dup::views;
use crate::parser::syntax::{
    RawAttr, RawEnum, RawField, RawFn, RawImpl, RawItem, RawItemV, RawReceiver, RawSig,
    RawStruct, RawTrait, RawTypeAlias, RawVariant,
};

verus! {

#[verifier::external_type_specification]
#[verifier::external_body]
pub struct ExSynItem(syn::Item);

#[verifier::external_type_specification]
#[verifier::external_body]
pub struct ExSynItemStruct(syn::ItemStruct);

#[verifier::external_type_specification]
#[verifier::external_body]
pub struct ExSynItemEnum(syn::ItemEnum);

#[verifier::external_type_specification]
#[verifier::external_body]
pub struct ExSynItemTrait(syn::ItemTrait);

#[verifier::external_type_specification]
#[verifier::external_body]
pub struct ExSynItemImpl(syn::ItemImpl);

#[verifier::external_type_specification]
#[verifier::external_body]
pub struct ExSynItemType(syn::ItemType);

#[verifier::external_type_specification]
#[verifier::external_body]
pub struct ExSynSignature(syn::Signature);

#[verifier::external_type_specification]
#[verifier::external_body]
pub struct ExSynAttribute(syn::Attribute);

#[verifier::external_type_specification]
#[verifier::external_body]
pub struct ExSynFields(syn::Fields);

/// What `syn::parse_file` makes of `text`: the file's items as plain values,
/// or the message of the error it reports.
pub uninterp spec fn syn_file(text: Seq<char>) -> Result<Seq<RawItemV>, Seq<char>>;

/// What `syn::parse_str::<syn::Item>` makes of `text`: the one item, or
/// nothing when `text` is not exactly one item.
pub uninterp spec fn syn_item(text: Seq<char>) -> Option<RawItemV>;

/// `syn::parse_file` on `text`. The result is the name `syn_file` applied to
/// `text`; nothing more is claimed of it.
#[verifier::external_body]
pub(crate) fn parse_syn_file(text: &str) -> (res: Result<Vec<RawItem>, String>)
    ensures
        match res {
            Ok(items) => syn_file(text@) == Ok::<Seq<RawItemV>, Seq<char>>(views(items@)),
            Err(msg) => syn_file(text@) == Err::<Seq<RawItemV>, Seq<char>>(msg@),
        },
{
    match syn::parse_file(text) {
        Ok(file) => Ok(file.items.iter().map(raw_item).collect()),
        Err(e) => Err(e.to_string()),
    }
}

/// `syn::parse_str::<syn::Item>` on `text`. The result is the name `syn_item`
/// applied to `text`.
#[verifier::external_body]
pub(crate) fn parse_syn_item(text: &str) -> (res: Option<RawItem>)
    ensures
        match res {
            Some(item) => syn_item(text@) == Some(item@),
            None => syn_item(text@) is None,
        },
{
    match syn::parse_str::<syn::Item>(text) {
        Ok(item) => Some(raw_item(&item)),
        Err(_) => None,
    }
}

/// One item, by its kind.
#[verifier::external_body]
fn raw_item(item: &syn::Item) -> RawItem {
    match item {
        syn::Item::Struct(s) => RawItem::Struct(raw_struct(s)),
        syn::Item::Enum(e) => RawItem::Enum(raw_enum(e)),
        syn::Item::Fn(f) => RawItem::Fn(raw_fn(&f.attrs, f.vis.to_token_stream().to_string(), &f.sig)),
        syn::Item::Trait(t) => RawItem::Trait(raw_trait(t)),
        syn::Item::Impl(i) => RawItem::Impl(raw_impl(i)),
        syn::Item::Type(t) => RawItem::TypeAlias(raw_type_alias(t)),
        _ => RawItem::Other,
    }
}

/// Attributes: each path printed, and the string of `#[path = "..."]`.
#[verifier::external_body]
fn raw_attrs(attrs: &[syn::Attribute]) -> Vec<RawAttr> {
    attrs.iter().map(|a| RawAttr {
        path: a.path().to_token_stream().to_string(),
        str_value: match &a.meta {
            syn::Meta::NameValue(nv) => match &nv.value {
                syn::Expr::Lit(syn::ExprLit { lit: syn::Lit::Str(s), .. }) => Some(s.value()),
                _ => None,
            },
            _ => None,
        },
    }).collect()
}

/// Fields: each name, if it has one, and its printed type.
#[verifier::external_body]
fn raw_fields(fields: &syn::Fields) -> Vec<RawField> {
    fields.iter().map(|f| RawField {
        ident: f.ident.as_ref().map(|i| i.to_string()),
        ty: f.ty.to_token_stream().to_string(),
    }).collect()
}

/// A signature: name, printed tokens, receiver and `unsafe`.
#[verifier::external_body]
fn raw_sig(sig: &syn::Signature) -> RawSig {
    RawSig {
        ident: sig.ident.to_string(),
        text: sig.to_token_stream().to_string(),
        receiver: sig.receiver().map(|r| RawReceiver {
            is_ref: r.reference.is_some(),
            is_mut: r.mutability.is_some(),
        }),
        is_unsafe: sig.unsafety.is_some(),
    }
}

/// A function, with the line of its name.
#[verifier::external_body]
fn raw_fn(attrs: &[syn::Attribute], vis: String, sig: &syn::Signature) -> RawFn {
    RawFn {
        vis,
        attrs: raw_attrs(attrs),
        sig: raw_sig(sig),
        line: sig.ident.span().start().line,
    }
}

#[verifier::external_body]
fn raw_struct(s: &syn::ItemStruct) -> RawStruct {
    RawStruct {
        ident: s.ident.to_string(),
        generics: s.generics.to_token_stream().to_string(),
        vis: s.vis.to_token_stream().to_string(),
        attrs: raw_attrs(&s.attrs),
        fields: raw_fields(&s.fields),
        line: s.ident.span().start().line,
    }
}

#[verifier::external_body]
fn raw_enum(e: &syn::ItemEnum) -> RawEnum {
    RawEnum {
        ident: e.ident.to_string(),
        generics: e.generics.to_token_stream().to_string(),
        vis: e.vis.to_token_stream().to_string(),
        attrs: raw_attrs(&e.attrs),
        variants: e.variants.iter().map(|v| RawVariant {
            ident: v.ident.to_string(),
            fields: raw_fields(&v.fields),
        }).collect(),
        line: e.ident.span().start().line,
    }
}

#[verifier::external_body]
fn raw_trait(t: &syn::ItemTrait) -> RawTrait {
    RawTrait {
        ident: t.ident.to_string(),
        vis: t.vis.to_token_stream().to_string(),
        attrs: raw_attrs(&t.attrs),
        items: t.items.iter().map(|i| match i {
            syn::TraitItem::Fn(m) => Some(m.sig.ident.to_string()),
            _ => None,
        }).collect(),
        line: t.ident.span().start().line,
    }
}

#[verifier::external_body]
fn raw_impl(i: &syn::ItemImpl) -> RawImpl {
    RawImpl {
        self_ty: i.self_ty.to_token_stream().to_string(),
        trait_path: i.trait_.as_ref().map(|(_, p, _)| p.to_token_stream().to_string()),
        items: i.items.iter().map(|it| match it {
            syn::ImplItem::Fn(m) => Some(raw_fn(&m.attrs, m.vis.to_token_stream().to_string(), &m.sig)),
            _ => None,
        }).collect(),
        line: i.impl_token.span.start().line,
    }
}

#[verifier::external_body]
fn raw_type_alias(t: &syn::ItemType) -> RawTypeAlias {
    RawTypeAlias {
        ident: t.ident.to_string(),
        vis: t.vis.to_token_stream().to_string(),
        target: t.ty.to_token_stream().to_string(),
        line: t.ident.span().start().line,
    }
}

} // verus!
