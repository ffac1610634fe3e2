//! Analysis chunks and item clusters, with their size estimates and
//! summaries.
use vstd::prelude::*;
use crate::dup::{Dup, views, opt_view, dup_vec, dup_opt};
use crate::parser::ast::{
    EnumDef, EnumDefV, Field, FieldV, FunctionDef, FunctionDefV, ImplBlock, ImplBlockV,
    StructDef, StructDefV, TraitDef, TraitDefV, Variant, VariantV,
};
use crate::text::{byte_len, decimal, sat, seq_join, str_byte_len_sat, join, push_str, usize_to_string};

verus! {

/// A chunk of a module to be analyzed: the whole module when it fits the
/// context window, else a cluster of related items.
#[derive(Debug, Clone)]
pub struct AnalysisChunk {
    /// Names the chunk among all chunks of a run: the module path, with
    /// `#` and the chunk's index when the module was split.
    pub chunk_id: String,
    /// Module path (e.g. `crate::connection`)
    pub module_name: String,
    pub file_path: String,
    /// Raw source of the relevant section, comments kept
    pub raw_source: String,
    pub structs: Vec<StructDef>,
    pub enums: Vec<EnumDef>,
    pub functions: Vec<FunctionDef>,
    pub traits: Vec<TraitDef>,
    pub impl_blocks: Vec<ImplBlock>,
    /// What the other chunks of the same module contain
    pub sibling_summary: Option<String>,
}

pub struct AnalysisChunkV {
    pub chunk_id: Seq<char>,
    pub module_name: Seq<char>,
    pub file_path: Seq<char>,
    pub raw_source: Seq<char>,
    pub structs: Seq<StructDefV>,
    pub enums: Seq<EnumDefV>,
    pub functions: Seq<FunctionDefV>,
    pub traits: Seq<TraitDefV>,
    pub impl_blocks: Seq<ImplBlockV>,
    pub sibling_summary: Option<Seq<char>>,
}

impl View for AnalysisChunk {
    type V = AnalysisChunkV;

    open spec fn view(&self) -> AnalysisChunkV {
        AnalysisChunkV {
            chunk_id: self.chunk_id@,
            module_name: self.module_name@,
            file_path: self.file_path@,
            raw_source: self.raw_source@,
            structs: views(self.structs@),
            enums: views(self.enums@),
            functions: views(self.functions@),
            traits: views(self.traits@),
            impl_blocks: views(self.impl_blocks@),
            sibling_summary: opt_view(self.sibling_summary),
        }
    }
}

impl Dup for AnalysisChunk {
    fn dup(&self) -> (res: Self) {
        AnalysisChunk {
            chunk_id: self.chunk_id.clone(),
            module_name: self.module_name.clone(),
            file_path: self.file_path.clone(),
            raw_source: self.raw_source.clone(),
            structs: dup_vec(&self.structs),
            enums: dup_vec(&self.enums),
            functions: dup_vec(&self.functions),
            traits: dup_vec(&self.traits),
            impl_blocks: dup_vec(&self.impl_blocks),
            sibling_summary: dup_opt(&self.sibling_summary),
        }
    }
}

/// A cluster of related items of a module, used to split large modules.
#[derive(Debug, Clone)]
pub struct ItemCluster {
    /// The type the cluster is organized around, if any
    pub anchor_type: Option<String>,
    pub structs: Vec<StructDef>,
    pub enums: Vec<EnumDef>,
    pub functions: Vec<FunctionDef>,
    pub traits: Vec<TraitDef>,
    pub impl_blocks: Vec<ImplBlock>,
}

pub struct ItemClusterV {
    pub anchor_type: Option<Seq<char>>,
    pub structs: Seq<StructDefV>,
    pub enums: Seq<EnumDefV>,
    pub functions: Seq<FunctionDefV>,
    pub traits: Seq<TraitDefV>,
    pub impl_blocks: Seq<ImplBlockV>,
}

impl View for ItemCluster {
    type V = ItemClusterV;

    open spec fn view(&self) -> ItemClusterV {
        ItemClusterV {
            anchor_type: opt_view(self.anchor_type),
            structs: views(self.structs@),
            enums: views(self.enums@),
            functions: views(self.functions@),
            traits: views(self.traits@),
            impl_blocks: views(self.impl_blocks@),
        }
    }
}

// ---------------------------------------------------------------------------
// Size estimates
// ---------------------------------------------------------------------------

/// A value whose share of a cluster's text is estimated in bytes.
pub trait Weighed: View + Sized {
    spec fn weight(v: Self::V) -> int;

    /// The weight, saturated at `usize::MAX`.
    fn weight_sat(&self) -> (res: usize)
        ensures
            Self::weight(self@) >= 0,
            res == sat(Self::weight(self@)),
    ;
}

/// The total weight of the values.
pub open spec fn total_weight<T: Weighed>(s: Seq<T::V>) -> int
    decreases s.len(),
{
    if s.len() == 0 {
        0
    } else {
        total_weight::<T>(s.drop_last()) + T::weight(s.last())
    }
}

/// The total weight, saturated at `usize::MAX`.
pub fn sum_weights<T: Weighed>(v: &Vec<T>) -> (res: usize)
    ensures
        total_weight::<T>(views(v@)) >= 0,
        res == sat(total_weight::<T>(views(v@))),
{
    let mut acc: usize = 0;
    let mut i: usize = 0;
    while i < v.len()
        invariant
            i <= v@.len(),
            total_weight::<T>(views(v@).take(i as int)) >= 0,
            acc == sat(total_weight::<T>(views(v@).take(i as int))),
        decreases v@.len() - i,
    {
        proof {
            assert(views(v@).take(i + 1).drop_last() =~= views(v@).take(i as int));
            assert(views(v@).take(i + 1).last() == v@[i as int]@);
        }
        let w = v[i].weight_sat();
        acc = acc.saturating_add(w);
        i += 1;
    }
    proof {
        assert(views(v@).take(v@.len() as int) =~= views(v@));
    }
    acc
}

/// The byte length of an optional text, zero when there is none.
pub open spec fn opt_len(o: Option<Seq<char>>) -> int {
    match o {
        Some(s) => byte_len(s) as int,
        None => 0,
    }
}

fn opt_len_sat(o: &Option<String>) -> (res: usize)
    ensures
        res == sat(opt_len(opt_view(*o))),
{
    match o {
        Some(s) => str_byte_len_sat(s.as_str()),
        None => 0,
    }
}

impl Weighed for Field {
    open spec fn weight(v: FieldV) -> int {
        (byte_len(v.name) + byte_len(v.ty) + 4) as int
    }

    fn weight_sat(&self) -> (res: usize) {
        str_byte_len_sat(self.name.as_str()).saturating_add(str_byte_len_sat(self.ty.as_str())).saturating_add(4)
    }
}

impl Weighed for Variant {
    open spec fn weight(v: VariantV) -> int {
        (byte_len(v.name) + 10) as int
    }

    fn weight_sat(&self) -> (res: usize) {
        str_byte_len_sat(self.name.as_str()).saturating_add(10)
    }
}

impl Weighed for String {
    open spec fn weight(v: Seq<char>) -> int {
        (byte_len(v) + 10) as int
    }

    fn weight_sat(&self) -> (res: usize) {
        str_byte_len_sat(self.as_str()).saturating_add(10)
    }
}

impl Weighed for StructDef {
    open spec fn weight(v: StructDefV) -> int {
        byte_len(v.name) + total_weight::<Field>(v.fields) + 20 + opt_len(v.doc_comment)
    }

    fn weight_sat(&self) -> (res: usize) {
        str_byte_len_sat(self.name.as_str()).saturating_add(sum_weights(&self.fields)).saturating_add(
            20,
        ).saturating_add(opt_len_sat(&self.doc_comment))
    }
}

impl Weighed for EnumDef {
    open spec fn weight(v: EnumDefV) -> int {
        byte_len(v.name) + total_weight::<Variant>(v.variants) + 20 + opt_len(v.doc_comment)
    }

    fn weight_sat(&self) -> (res: usize) {
        str_byte_len_sat(self.name.as_str()).saturating_add(sum_weights(&self.variants)).saturating_add(
            20,
        ).saturating_add(opt_len_sat(&self.doc_comment))
    }
}

impl Weighed for TraitDef {
    open spec fn weight(v: TraitDefV) -> int {
        byte_len(v.name) + total_weight::<String>(v.methods) + 20
    }

    fn weight_sat(&self) -> (res: usize) {
        str_byte_len_sat(self.name.as_str()).saturating_add(sum_weights(&self.methods)).saturating_add(20)
    }
}

/// A free function weighs its signature, doc comment and body.
impl Weighed for FunctionDef {
    open spec fn weight(v: FunctionDefV) -> int {
        byte_len(v.signature) + 20 + opt_len(v.doc_comment) + opt_len(v.body_summary)
    }

    fn weight_sat(&self) -> (res: usize) {
        str_byte_len_sat(self.signature.as_str()).saturating_add(20).saturating_add(
            opt_len_sat(&self.doc_comment),
        ).saturating_add(opt_len_sat(&self.body_summary))
    }
}

/// A method weighs its signature and body.
pub open spec fn method_weight(v: FunctionDefV) -> int {
    byte_len(v.signature) + 20 + opt_len(v.body_summary)
}

pub open spec fn methods_weight(ms: Seq<FunctionDefV>) -> int
    decreases ms.len(),
{
    if ms.len() == 0 {
        0
    } else {
        methods_weight(ms.drop_last()) + method_weight(ms.last())
    }
}

impl Weighed for ImplBlock {
    open spec fn weight(v: ImplBlockV) -> int {
        byte_len(v.self_type) + 20 + methods_weight(v.methods)
    }

    fn weight_sat(&self) -> (res: usize) {
        let mut acc = str_byte_len_sat(self.self_type.as_str()).saturating_add(20);
        let ghost base = byte_len(self.self_type@) + 20;
        let ghost ms = views(self.methods@);
        let mut i: usize = 0;
        while i < self.methods.len()
            invariant
                i <= self.methods@.len(),
                ms == views(self.methods@),
                methods_weight(ms.take(i as int)) >= 0,
                acc == sat(base + methods_weight(ms.take(i as int))),
                base >= 0,
            decreases self.methods@.len() - i,
        {
            proof {
                assert(ms.take(i + 1).drop_last() =~= ms.take(i as int));
                assert(ms.take(i + 1).last() == self.methods@[i as int]@);
            }
            let m = &self.methods[i];
            let w = str_byte_len_sat(m.signature.as_str()).saturating_add(20).saturating_add(
                opt_len_sat(&m.body_summary),
            );
            acc = acc.saturating_add(w);
            i += 1;
        }
        proof {
            assert(ms.take(ms.len() as int) =~= ms);
        }
        acc
    }
}

/// The estimated number of bytes of a cluster's items.
pub open spec fn cluster_chars(c: ItemClusterV) -> int {
    total_weight::<StructDef>(c.structs) + total_weight::<EnumDef>(c.enums) + total_weight::<
        FunctionDef,
    >(c.functions) + total_weight::<TraitDef>(c.traits) + total_weight::<ImplBlock>(c.impl_blocks)
}

/// The estimated number of tokens of a cluster: four bytes per token.
pub open spec fn estimated_tokens_of(c: ItemClusterV) -> int {
    sat(cluster_chars(c)) / 4
}

impl ItemCluster {
    /// Estimates the cluster's size in tokens, at four bytes per token, from
    /// the names, types, signatures, doc comments and bodies of its items.
    pub fn estimated_tokens(&self) -> (res: usize)
        ensures
            res == estimated_tokens_of(self@),
    {
        let a = sum_weights(&self.structs);
        let b = sum_weights(&self.enums);
        let c = sum_weights(&self.functions);
        let d = sum_weights(&self.traits);
        let e = sum_weights(&self.impl_blocks);
        a.saturating_add(b).saturating_add(c).saturating_add(d).saturating_add(e) / 4
    }

    /// The type names that the cluster is about: its anchor, its structs and
    /// its enums.
    pub fn type_names_referenced(&self) -> (res: Vec<String>)
        ensures
            views(res@) == type_names_of(self@),
    {
        let mut names: Vec<String> = Vec::new();
        match &self.anchor_type {
            Some(a) => names.push(a.clone()),
            None => {},
        }
        let mut i: usize = 0;
        while i < self.structs.len()
            invariant
                i <= self.structs@.len(),
                views(names@) == anchor_names(self@) + self@.structs.take(i as int).map_values(
                    |s: StructDefV| s.name,
                ),
            decreases self.structs@.len() - i,
        {
            let ghost before = views(names@);
            names.push(self.structs[i].name.clone());
            proof {
                assert(self@.structs.take(i + 1).map_values(|s: StructDefV| s.name)
                    =~= self@.structs.take(i as int).map_values(|s: StructDefV| s.name).push(
                    self.structs@[i as int].name@,
                ));
                assert(views(names@) =~= before.push(self.structs@[i as int].name@));
            }
            i += 1;
        }
        let mut j: usize = 0;
        while j < self.enums.len()
            invariant
                j <= self.enums@.len(),
                views(names@) == anchor_names(self@) + self@.structs.map_values(
                    |s: StructDefV| s.name,
                ) + self@.enums.take(j as int).map_values(|e: EnumDefV| e.name),
            decreases self.enums@.len() - j,
        {
            let ghost before = views(names@);
            names.push(self.enums[j].name.clone());
            proof {
                assert(self@.enums.take(j + 1).map_values(|e: EnumDefV| e.name)
                    =~= self@.enums.take(j as int).map_values(|e: EnumDefV| e.name).push(
                    self.enums@[j as int].name@,
                ));
                assert(views(names@) =~= before.push(self.enums@[j as int].name@));
            }
            j += 1;
        }
        proof {
            assert(self@.structs.take(self@.structs.len() as int) =~= self@.structs);
            assert(self@.enums.take(self@.enums.len() as int) =~= self@.enums);
        }
        names
    }

    /// A one-line description of the cluster: its structs, enums and traits,
    /// its number of free functions, and its impl blocks with their method
    /// counts.
    pub fn summary(&self) -> (res: String)
        ensures
            res@ == summary_of(self@),
    {
        let mut parts: Vec<String> = Vec::new();
        let mut i: usize = 0;
        while i < self.structs.len()
            invariant
                i <= self.structs@.len(),
                views(parts@) == self@.structs.take(i as int).map_values(|s: StructDefV| "struct "@ + s.name),
            decreases self.structs@.len() - i,
        {
            let mut s = String::from_str("struct ");
            push_str(&mut s, self.structs[i].name.as_str());
            let ghost before = views(parts@);
            parts.push(s);
            proof {
                assert(self@.structs.take(i + 1).map_values(|s: StructDefV| "struct "@ + s.name)
                    =~= self@.structs.take(i as int).map_values(|s: StructDefV| "struct "@ + s.name).push("struct "@ + self.structs@[i as int].name@));
                assert(views(parts@) =~= before.push("struct "@ + self.structs@[i as int].name@));
            }
            i += 1;
        }
        let ghost p1 = views(parts@);
        let mut j: usize = 0;
        while j < self.enums.len()
            invariant
                j <= self.enums@.len(),
                views(parts@) == p1 + self@.enums.take(j as int).map_values(|e: EnumDefV| "enum "@ + e.name),
            decreases self.enums@.len() - j,
        {
            let mut s = String::from_str("enum ");
            push_str(&mut s, self.enums[j].name.as_str());
            let ghost before = views(parts@);
            parts.push(s);
            proof {
                assert(self@.enums.take(j + 1).map_values(|e: EnumDefV| "enum "@ + e.name)
                    =~= self@.enums.take(j as int).map_values(|e: EnumDefV| "enum "@ + e.name).push("enum "@ + self.enums@[j as int].name@));
                assert(views(parts@) =~= before.push("enum "@ + self.enums@[j as int].name@));
            }
            j += 1;
        }
        let ghost p2 = views(parts@);
        let mut k: usize = 0;
        while k < self.traits.len()
            invariant
                k <= self.traits@.len(),
                views(parts@) == p2 + self@.traits.take(k as int).map_values(|t: TraitDefV| "trait "@ + t.name),
            decreases self.traits@.len() - k,
        {
            let mut s = String::from_str("trait ");
            push_str(&mut s, self.traits[k].name.as_str());
            let ghost before = views(parts@);
            parts.push(s);
            proof {
                assert(self@.traits.take(k + 1).map_values(|t: TraitDefV| "trait "@ + t.name)
                    =~= self@.traits.take(k as int).map_values(|t: TraitDefV| "trait "@ + t.name).push("trait "@ + self.traits@[k as int].name@));
                assert(views(parts@) =~= before.push("trait "@ + self.traits@[k as int].name@));
            }
            k += 1;
        }
        let ghost p3 = views(parts@);
        if self.functions.len() > 0 {
            let mut s = usize_to_string(self.functions.len());
            push_str(&mut s, " free function(s)");
            parts.push(s);
            proof {
                assert(views(parts@) =~= p3.push(decimal(self@.functions.len()) + " free function(s)"@));
            }
        }
        let ghost p4 = views(parts@);
        let mut m: usize = 0;
        while m < self.impl_blocks.len()
            invariant
                m <= self.impl_blocks@.len(),
                views(parts@) == p4 + self@.impl_blocks.take(m as int).map_values(|b: ImplBlockV| impl_part(b)),
            decreases self.impl_blocks@.len() - m,
        {
            let b = &self.impl_blocks[m];
            let mut s = String::from_str("impl ");
            match &b.trait_name {
                Some(tn) => {
                    push_str(&mut s, tn.as_str());
                    push_str(&mut s, " for ");
                },
                None => {},
            }
            push_str(&mut s, b.self_type.as_str());
            push_str(&mut s, " (");
            let count = usize_to_string(b.methods.len());
            push_str(&mut s, count.as_str());
            push_str(&mut s, " methods)");
            proof {
                assert(s@ =~= impl_part(b@));
            }
            let ghost before = views(parts@);
            parts.push(s);
            proof {
                assert(self@.impl_blocks.take(m + 1).map_values(|b: ImplBlockV| impl_part(b))
                    =~= self@.impl_blocks.take(m as int).map_values(|b: ImplBlockV| impl_part(b)).push(impl_part(self.impl_blocks@[m as int]@)));
                assert(views(parts@) =~= before.push(impl_part(self.impl_blocks@[m as int]@)));
            }
            m += 1;
        }
        proof {
            assert(self@.structs.take(self@.structs.len() as int) =~= self@.structs);
            assert(self@.enums.take(self@.enums.len() as int) =~= self@.enums);
            assert(self@.traits.take(self@.traits.len() as int) =~= self@.traits);
            assert(self@.impl_blocks.take(self@.impl_blocks.len() as int) =~= self@.impl_blocks);
            assert(views(parts@) =~= summary_parts(self@));
        }
        join(&parts, ", ")
    }
}

pub open spec fn anchor_names(c: ItemClusterV) -> Seq<Seq<char>> {
    match c.anchor_type {
        Some(a) => seq![a],
        None => Seq::empty(),
    }
}

/// The anchor, struct names and enum names of a cluster.
pub open spec fn type_names_of(c: ItemClusterV) -> Seq<Seq<char>> {
    anchor_names(c) + c.structs.map_values(|s: StructDefV| s.name) + c.enums.map_values(
        |e: EnumDefV| e.name,
    )
}

/// How an impl block is named in a summary.
pub open spec fn impl_part(b: ImplBlockV) -> Seq<char> {
    match b.trait_name {
        Some(tn) => "impl "@ + tn + " for "@ + b.self_type + " ("@ + decimal(b.methods.len()) + " methods)"@,
        None => "impl "@ + b.self_type + " ("@ + decimal(b.methods.len()) + " methods)"@,
    }
}

pub open spec fn summary_parts(c: ItemClusterV) -> Seq<Seq<char>> {
    c.structs.map_values(|s: StructDefV| "struct "@ + s.name) + c.enums.map_values(
        |e: EnumDefV| "enum "@ + e.name,
    ) + c.traits.map_values(|t: TraitDefV| "trait "@ + t.name) + (if c.functions.len() > 0 {
        seq![decimal(c.functions.len()) + " free function(s)"@]
    } else {
        Seq::empty()
    }) + c.impl_blocks.map_values(|b: ImplBlockV| impl_part(b))
}

/// The summary of a cluster: its parts joined by commas.
pub open spec fn summary_of(c: ItemClusterV) -> Seq<char> {
    seq_join(summary_parts(c), ", "@)
}

} // verus!
