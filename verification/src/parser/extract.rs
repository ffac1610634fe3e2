//! From the plain syntax tree of a file to its code items: structs, enums,
//! functions, traits, impl blocks and type aliases, with their names,
//! printed types, visibility, doc comments and receivers.
use vstd::prelude::*;
use crate::dup::views;
use crate::parser::ast::{
    CodeItem, CodeItemV, EnumDef, EnumDefV, Field, FieldV, FunctionDef, FunctionDefV, ImplBlock,
    ImplBlockV, SelfParam, SourceLocation, SourceLocationV, StructDef, StructDefV, TraitDef,
    TraitDefV, TypeAlias, TypeAliasV, Variant, VariantV, Visibility,
};
use crate::parser::syntax::{
    RawAttr, RawAttrV, RawEnum, RawEnumV, RawField, RawFieldV, RawFn, RawFnV, RawImpl, RawImplV,
    RawItem, RawItemV, RawStruct, RawStructV, RawTrait, RawTraitV, RawTypeAlias, RawTypeAliasV,
    RawVariant, RawVariantV,
};
use crate::text::{seq_contains, seq_join, str_eq, contains_str, to_chars, join};

verus! {

// ---------------------------------------------------------------------------
// Specifications
// ---------------------------------------------------------------------------

/// The visibility that the printed tokens `v` stand for: `pub`, nothing,
/// `pub(crate)` (or `pub(in crate)`), or another restriction.
pub open spec fn visibility_of(v: Seq<char>) -> Visibility {
    if v == "pub"@ {
        Visibility::Public
    } else if v.len() == 0 {
        Visibility::Private
    } else if v == "pub (crate)"@ || v == "pub (in crate)"@ {
        Visibility::Crate
    } else {
        Visibility::Restricted
    }
}

/// The text of each doc attribute (`#[doc = "..."]`, which `///` becomes), in order.
pub open spec fn doc_lines(attrs: Seq<RawAttrV>) -> Seq<Seq<char>>
    decreases attrs.len(),
{
    if attrs.len() == 0 {
        Seq::empty()
    } else {
        let a = attrs.last();
        let rest = doc_lines(attrs.drop_last());
        if a.path == "doc"@ && a.str_value is Some {
            rest.push(a.str_value->0)
        } else {
            rest
        }
    }
}

/// The doc comment: the doc lines joined by newlines, or none if there is none.
pub open spec fn doc_comment_of(attrs: Seq<RawAttrV>) -> Option<Seq<char>> {
    let lines = doc_lines(attrs);
    if lines.len() == 0 {
        None
    } else {
        Some(seq_join(lines, "\n"@))
    }
}

/// The paths of the attributes that are not doc comments, in order.
pub open spec fn attribute_paths(attrs: Seq<RawAttrV>) -> Seq<Seq<char>>
    decreases attrs.len(),
{
    if attrs.len() == 0 {
        Seq::empty()
    } else {
        let a = attrs.last();
        let rest = attribute_paths(attrs.drop_last());
        if a.path == "doc"@ {
            rest
        } else {
            rest.push(a.path)
        }
    }
}

/// The named fields, in order; tuple fields are left out.
pub open spec fn named_fields(fs: Seq<RawFieldV>) -> Seq<FieldV>
    decreases fs.len(),
{
    if fs.len() == 0 {
        Seq::empty()
    } else {
        let f = fs.last();
        let rest = named_fields(fs.drop_last());
        match f.ident {
            Some(name) => rest.push(FieldV { name, ty: f.ty }),
            None => rest,
        }
    }
}

/// Some named field has a type that mentions `PhantomData`.
pub open spec fn has_phantom(fs: Seq<RawFieldV>) -> bool {
    exists|i: int| 0 <= i < fs.len() && fs[i].ident is Some && seq_contains(fs[i].ty, "PhantomData"@)
}

/// Where an item stands: its file, and a line that is always 1, items
/// being placed by file only.
pub open spec fn location(path: Seq<char>, line: usize) -> SourceLocationV {
    SourceLocationV { file_path: path, line }
}

pub open spec fn struct_of(path: Seq<char>, r: RawStructV) -> StructDefV {
    StructDefV {
        name: r.ident,
        generics: r.generics,
        fields: named_fields(r.fields),
        visibility: visibility_of(r.vis),
        doc_comment: doc_comment_of(r.attrs),
        has_phantom_data: has_phantom(r.fields),
        source_location: location(path, 1),
    }
}

pub open spec fn variant_of(r: RawVariantV) -> VariantV {
    VariantV { name: r.ident, fields: named_fields(r.fields) }
}

pub open spec fn enum_of(path: Seq<char>, r: RawEnumV) -> EnumDefV {
    EnumDefV {
        name: r.ident,
        generics: r.generics,
        variants: r.variants.map_values(|v: RawVariantV| variant_of(v)),
        visibility: visibility_of(r.vis),
        doc_comment: doc_comment_of(r.attrs),
        source_location: location(path, 1),
    }
}

/// The receiver kind of a method: `&mut self` (and `mut self`) is a mutable
/// receiver, `&self` a shared one, `self` an owned one.
pub open spec fn self_param_of(receiver: Option<(bool, bool)>) -> Option<SelfParam> {
    match receiver {
        Some((is_ref, is_mut)) => Some(
            if is_mut {
                SelfParam::MutReference
            } else if is_ref {
                SelfParam::Reference
            } else {
                SelfParam::Owned
            },
        ),
        None => None,
    }
}

pub open spec fn function_of(path: Seq<char>, r: RawFnV, is_method: bool) -> FunctionDefV {
    FunctionDefV {
        name: r.sig.ident,
        signature: r.sig.text,
        is_method,
        self_param: if is_method { self_param_of(r.sig.receiver) } else { None },
        visibility: visibility_of(r.vis),
        doc_comment: doc_comment_of(r.attrs),
        body_summary: None,
        attributes: attribute_paths(r.attrs),
        is_unsafe: r.sig.is_unsafe,
        source_location: location(path, 1),
    }
}

/// The names of the methods among a trait's items.
pub open spec fn method_names(items: Seq<Option<Seq<char>>>) -> Seq<Seq<char>>
    decreases items.len(),
{
    if items.len() == 0 {
        Seq::empty()
    } else {
        let rest = method_names(items.drop_last());
        match items.last() {
            Some(n) => rest.push(n),
            None => rest,
        }
    }
}

pub open spec fn trait_of(path: Seq<char>, r: RawTraitV) -> TraitDefV {
    TraitDefV {
        name: r.ident,
        methods: method_names(r.items),
        visibility: visibility_of(r.vis),
        doc_comment: doc_comment_of(r.attrs),
        source_location: location(path, 1),
    }
}

/// The methods among an impl block's items.
pub open spec fn impl_methods(path: Seq<char>, items: Seq<Option<RawFnV>>) -> Seq<FunctionDefV>
    decreases items.len(),
{
    if items.len() == 0 {
        Seq::empty()
    } else {
        let rest = impl_methods(path, items.drop_last());
        match items.last() {
            Some(f) => rest.push(function_of(path, f, true)),
            None => rest,
        }
    }
}

pub open spec fn impl_of(path: Seq<char>, r: RawImplV) -> ImplBlockV {
    ImplBlockV {
        trait_name: r.trait_path,
        self_type: r.self_ty,
        methods: impl_methods(path, r.items),
        source_location: location(path, 1),
    }
}

pub open spec fn type_alias_of(path: Seq<char>, r: RawTypeAliasV) -> TypeAliasV {
    TypeAliasV {
        name: r.ident,
        target: r.target,
        visibility: visibility_of(r.vis),
        source_location: location(path, 1),
    }
}

/// The code item of a raw item, if it is of a kind that is kept.
pub open spec fn item_of(path: Seq<char>, r: RawItemV) -> Option<CodeItemV> {
    match r {
        RawItemV::Struct(s) => Some(CodeItemV::Struct(struct_of(path, s))),
        RawItemV::Enum(e) => Some(CodeItemV::Enum(enum_of(path, e))),
        RawItemV::Fn(f) => Some(CodeItemV::Function(function_of(path, f, false))),
        RawItemV::Trait(t) => Some(CodeItemV::Trait(trait_of(path, t))),
        RawItemV::Impl(i) => Some(CodeItemV::Impl(impl_of(path, i))),
        RawItemV::TypeAlias(a) => Some(CodeItemV::TypeAlias(type_alias_of(path, a))),
        RawItemV::Other => None,
    }
}

/// The code items of a file's raw items, in order.
pub open spec fn items_of(path: Seq<char>, raws: Seq<RawItemV>) -> Seq<CodeItemV>
    decreases raws.len(),
{
    if raws.len() == 0 {
        Seq::empty()
    } else {
        let rest = items_of(path, raws.drop_last());
        match item_of(path, raws.last()) {
            Some(it) => rest.push(it),
            None => rest,
        }
    }
}

// ---------------------------------------------------------------------------
// Executable extraction
// ---------------------------------------------------------------------------

fn visibility(v: &str) -> (res: Visibility)
    ensures
        res == visibility_of(v@),
{
    if str_eq(v, "pub") {
        Visibility::Public
    } else if v.is_empty() {
        Visibility::Private
    } else if str_eq(v, "pub (crate)") || str_eq(v, "pub (in crate)") {
        Visibility::Crate
    } else {
        Visibility::Restricted
    }
}

fn doc_comment(attrs: &Vec<RawAttr>) -> (res: Option<String>)
    ensures
        crate::dup::opt_view(res) == doc_comment_of(views(attrs@)),
{
    let mut lines: Vec<String> = Vec::new();
    let mut i: usize = 0;
    while i < attrs.len()
        invariant
            i <= attrs@.len(),
            views(lines@) == doc_lines(views(attrs@).take(i as int)),
        decreases attrs@.len() - i,
    {
        proof {
            assert(views(attrs@).take(i + 1).drop_last() =~= views(attrs@).take(i as int));
        }
        let a = &attrs[i];
        if str_eq(a.path.as_str(), "doc") {
            match &a.str_value {
                Some(v) => {
                    lines.push(v.clone());
                    proof {
                        assert(views(lines@) =~= doc_lines(views(attrs@).take(i as int)).push(
                            v@,
                        ));
                    }
                },
                None => {},
            }
        }
        i += 1;
    }
    proof {
        assert(views(attrs@).take(attrs@.len() as int) =~= views(attrs@));
    }
    if lines.len() == 0 {
        None
    } else {
        Some(join(&lines, "\n"))
    }
}

fn attributes(attrs: &Vec<RawAttr>) -> (res: Vec<String>)
    ensures
        views(res@) == attribute_paths(views(attrs@)),
{
    let mut res: Vec<String> = Vec::new();
    let mut i: usize = 0;
    while i < attrs.len()
        invariant
            i <= attrs@.len(),
            views(res@) == attribute_paths(views(attrs@).take(i as int)),
        decreases attrs@.len() - i,
    {
        proof {
            assert(views(attrs@).take(i + 1).drop_last() =~= views(attrs@).take(i as int));
        }
        let a = &attrs[i];
        if !str_eq(a.path.as_str(), "doc") {
            res.push(a.path.clone());
            proof {
                assert(views(res@) =~= attribute_paths(views(attrs@).take(i as int)).push(
                    a.path@,
                ));
            }
        }
        i += 1;
    }
    proof {
        assert(views(attrs@).take(attrs@.len() as int) =~= views(attrs@));
    }
    res
}

fn fields(fs: &Vec<RawField>) -> (res: (Vec<Field>, bool))
    ensures
        views(res.0@) == named_fields(views(fs@)),
        res.1 == has_phantom(views(fs@)),
{
    let mut out: Vec<Field> = Vec::new();
    let mut phantom = false;
    let mut i: usize = 0;
    while i < fs.len()
        invariant
            i <= fs@.len(),
            views(out@) == named_fields(views(fs@).take(i as int)),
            phantom == has_phantom(views(fs@).take(i as int)),
        decreases fs@.len() - i,
    {
        let ghost pre = views(fs@).take(i as int);
        let ghost post = views(fs@).take(i + 1);
        proof {
            assert(post.drop_last() =~= pre);
        }
        let f = &fs[i];
        match &f.ident {
            Some(name) => {
                let is_phantom = contains_str(to_chars(f.ty.as_str()).as_slice(), "PhantomData");
                out.push(Field { name: name.clone(), ty: f.ty.clone() });
                proof {
                    assert(views(out@) =~= named_fields(pre).push(FieldV { name: name@, ty: f.ty@ }));
                    if is_phantom {
                        assert(post[i as int] == f@);
                    }
                    if phantom {
                        let j = choose|j: int| 0 <= j < pre.len() && pre[j].ident is Some && seq_contains(pre[j].ty, "PhantomData"@);
                        assert(post[j] == pre[j]);
                    }
                    if has_phantom(post) {
                        let j = choose|j: int| 0 <= j < post.len() && post[j].ident is Some && seq_contains(post[j].ty, "PhantomData"@);
                        if j < i {
                            assert(pre[j] == post[j]);
                        }
                    }
                }
                phantom = phantom || is_phantom;
            },
            None => {
                proof {
                    if phantom {
                        let j = choose|j: int| 0 <= j < pre.len() && pre[j].ident is Some && seq_contains(pre[j].ty, "PhantomData"@);
                        assert(post[j] == pre[j]);
                    }
                    if has_phantom(post) {
                        let j = choose|j: int| 0 <= j < post.len() && post[j].ident is Some && seq_contains(post[j].ty, "PhantomData"@);
                        if j < i {
                            assert(pre[j] == post[j]);
                        }
                    }
                }
            },
        }
        i += 1;
    }
    proof {
        assert(views(fs@).take(fs@.len() as int) =~= views(fs@));
    }
    (out, phantom)
}

fn location_of(path: &str, line: usize) -> (res: SourceLocation)
    ensures
        res@ == location(path@, line),
{
    SourceLocation { file_path: path.to_owned(), line }
}

/// The struct definition of a raw struct found in the file at `path`.
pub fn extract_struct(r: &RawStruct, path: &str) -> (res: StructDef)
    ensures
        res@ == struct_of(path@, r@),
{
    let (fs, phantom) = fields(&r.fields);
    StructDef {
        name: r.ident.clone(),
        generics: r.generics.clone(),
        fields: fs,
        visibility: visibility(r.vis.as_str()),
        doc_comment: doc_comment(&r.attrs),
        has_phantom_data: phantom,
        source_location: location_of(path, 1),
    }
}

fn extract_variant(r: &RawVariant) -> (res: Variant)
    ensures
        res@ == variant_of(r@),
{
    let (fs, _) = fields(&r.fields);
    Variant { name: r.ident.clone(), fields: fs }
}

/// The enum definition of a raw enum found in the file at `path`.
pub fn extract_enum(r: &RawEnum, path: &str) -> (res: EnumDef)
    ensures
        res@ == enum_of(path@, r@),
{
    let mut variants: Vec<Variant> = Vec::new();
    let mut i: usize = 0;
    while i < r.variants.len()
        invariant
            i <= r.variants@.len(),
            variants@.len() == i,
            forall|k: int| 0 <= k < i ==> #[trigger] variants@[k]@ == variant_of(r.variants@[k]@),
        decreases r.variants@.len() - i,
    {
        variants.push(extract_variant(&r.variants[i]));
        i += 1;
    }
    proof {
        assert(views(variants@) =~= views(r.variants@).map_values(|v: RawVariantV| variant_of(v)));
    }
    EnumDef {
        name: r.ident.clone(),
        generics: r.generics.clone(),
        variants,
        visibility: visibility(r.vis.as_str()),
        doc_comment: doc_comment(&r.attrs),
        source_location: location_of(path, 1),
    }
}

/// The function definition of a raw function found in the file at `path`;
/// `is_method` tells whether it stands in an impl block.
pub fn extract_function(r: &RawFn, path: &str, is_method: bool) -> (res: FunctionDef)
    ensures
        res@ == function_of(path@, r@, is_method),
{
    let self_param = if is_method {
        match &r.sig.receiver {
            Some(rc) => Some(
                if rc.is_mut {
                    SelfParam::MutReference
                } else if rc.is_ref {
                    SelfParam::Reference
                } else {
                    SelfParam::Owned
                },
            ),
            None => None,
        }
    } else {
        None
    };
    FunctionDef {
        name: r.sig.ident.clone(),
        signature: r.sig.text.clone(),
        is_method,
        self_param,
        visibility: visibility(r.vis.as_str()),
        doc_comment: doc_comment(&r.attrs),
        body_summary: None,
        attributes: attributes(&r.attrs),
        is_unsafe: r.sig.is_unsafe,
        source_location: location_of(path, 1),
    }
}

/// The trait definition of a raw trait found in the file at `path`.
pub fn extract_trait(r: &RawTrait, path: &str) -> (res: TraitDef)
    ensures
        res@ == trait_of(path@, r@),
{
    let mut methods: Vec<String> = Vec::new();
    let mut i: usize = 0;
    while i < r.items.len()
        invariant
            i <= r.items@.len(),
            views(methods@) == method_names(crate::parser::syntax::opt_views(r.items@).take(i as int)),
        decreases r.items@.len() - i,
    {
        let ghost items = crate::parser::syntax::opt_views(r.items@);
        proof {
            assert(items.take(i + 1).drop_last() =~= items.take(i as int));
        }
        match &r.items[i] {
            Some(name) => {
                methods.push(name.clone());
                proof {
                    assert(views(methods@) =~= method_names(items.take(i as int)).push(name@));
                }
            },
            None => {},
        }
        i += 1;
    }
    proof {
        let items = crate::parser::syntax::opt_views(r.items@);
        assert(items.take(items.len() as int) =~= items);
    }
    TraitDef {
        name: r.ident.clone(),
        methods,
        visibility: visibility(r.vis.as_str()),
        doc_comment: doc_comment(&r.attrs),
        source_location: location_of(path, 1),
    }
}

/// The impl block of a raw impl found in the file at `path`.
pub fn extract_impl(r: &RawImpl, path: &str) -> (res: ImplBlock)
    ensures
        res@ == impl_of(path@, r@),
{
    let ghost items = r.items@.map_values(|o: Option<RawFn>| crate::dup::opt_view(o));
    let mut methods: Vec<FunctionDef> = Vec::new();
    let mut i: usize = 0;
    while i < r.items.len()
        invariant
            i <= r.items@.len(),
            items == r.items@.map_values(|o: Option<RawFn>| crate::dup::opt_view(o)),
            views(methods@) == impl_methods(path@, items.take(i as int)),
        decreases r.items@.len() - i,
    {
        proof {
            assert(items.take(i + 1).drop_last() =~= items.take(i as int));
        }
        match &r.items[i] {
            Some(f) => {
                let m = extract_function(f, path, true);
                methods.push(m);
                proof {
                    assert(views(methods@) =~= impl_methods(path@, items.take(i as int)).push(
                        function_of(path@, f@, true),
                    ));
                }
            },
            None => {},
        }
        i += 1;
    }
    proof {
        assert(items.take(items.len() as int) =~= items);
    }
    let trait_name = match &r.trait_path {
        Some(p) => Some(p.clone()),
        None => None,
    };
    ImplBlock {
        trait_name,
        self_type: r.self_ty.clone(),
        methods,
        source_location: location_of(path, 1),
    }
}

/// The type alias of a raw type alias found in the file at `path`.
pub fn extract_type_alias(r: &RawTypeAlias, path: &str) -> (res: TypeAlias)
    ensures
        res@ == type_alias_of(path@, r@),
{
    TypeAlias {
        name: r.ident.clone(),
        target: r.target.clone(),
        visibility: visibility(r.vis.as_str()),
        source_location: location_of(path, 1),
    }
}

/// The code item of one raw item, if it is of a kind that is kept.
pub fn extract_item(r: &RawItem, path: &str) -> (res: Option<CodeItem>)
    ensures
        crate::dup::opt_view(res) == item_of(path@, r@),
{
    match r {
        RawItem::Struct(s) => Some(CodeItem::Struct(extract_struct(s, path))),
        RawItem::Enum(e) => Some(CodeItem::Enum(extract_enum(e, path))),
        RawItem::Fn(f) => Some(CodeItem::Function(extract_function(f, path, false))),
        RawItem::Trait(t) => Some(CodeItem::Trait(extract_trait(t, path))),
        RawItem::Impl(i) => Some(CodeItem::Impl(extract_impl(i, path))),
        RawItem::TypeAlias(a) => Some(CodeItem::TypeAlias(extract_type_alias(a, path))),
        RawItem::Other => None,
    }
}

/// All code items of a file's syntax tree, in order: structs, enums, free
/// functions, traits, impl blocks and type aliases; other items are skipped.
pub fn extract_items(raws: &Vec<RawItem>, path: &str) -> (res: Vec<CodeItem>)
    ensures
        views(res@) == items_of(path@, views(raws@)),
{
    let mut res: Vec<CodeItem> = Vec::new();
    let mut i: usize = 0;
    while i < raws.len()
        invariant
            i <= raws@.len(),
            views(res@) == items_of(path@, views(raws@).take(i as int)),
        decreases raws@.len() - i,
    {
        proof {
            assert(views(raws@).take(i + 1).drop_last() =~= views(raws@).take(i as int));
        }
        match extract_item(&raws[i], path) {
            Some(it) => {
                res.push(it);
                proof {
                    assert(views(res@) =~= items_of(path@, views(raws@).take(i as int)).push(it@));
                }
            },
            None => {},
        }
        i += 1;
    }
    proof {
        assert(views(raws@).take(raws@.len() as int) =~= views(raws@));
    }
    res
}

} // verus!
