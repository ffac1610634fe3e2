//! The code evidence given to the model for a chunk: its raw source when it
//! has one (comments matter), else a rendering of its items.
use vstd::prelude::*;
use crate::dup::views;
use crate::navigation::chunk::{AnalysisChunk, AnalysisChunkV};
use crate::parser::ast::{
    EnumDefV, FieldV, FunctionDefV, ImplBlockV, StructDefV, TraitDefV, VariantV,
};
use crate::text::{seq_lines, lines_of, push_str};

verus! {

/// The texts produced for each element, one after another.
pub open spec fn concat_map<T>(s: Seq<T>, f: spec_fn(T) -> Seq<char>) -> Seq<char>
    decreases s.len(),
{
    if s.len() == 0 {
        Seq::empty()
    } else {
        concat_map(s.drop_last(), f) + f(s.last())
    }
}

/// A doc comment rendered as `///` lines under the given indentation.
pub open spec fn doc_block(doc: Option<Seq<char>>, indent: Seq<char>) -> Seq<char> {
    match doc {
        Some(d) => concat_map(seq_lines(d), |l: Seq<char>| indent + "///"@ + l + "\n"@),
        None => Seq::empty(),
    }
}

/// The note on the sibling chunks, when there is one.
pub open spec fn note_of(sibling: Option<Seq<char>>) -> Seq<char> {
    match sibling {
        Some(s) => "// Note: "@ + s + "\n\n"@,
        None => Seq::empty(),
    }
}

pub open spec fn field_line(f: FieldV) -> Seq<char> {
    "    "@ + f.name + ": "@ + f.ty + ",\n"@
}

pub open spec fn struct_text(s: StructDefV) -> Seq<char> {
    doc_block(s.doc_comment, ""@) + "pub struct "@ + s.name + s.generics + " {\n"@
        + concat_map(s.fields, |f: FieldV| field_line(f)) + "}\n\n"@
}

pub open spec fn enum_text(e: EnumDefV) -> Seq<char> {
    doc_block(e.doc_comment, ""@) + "pub enum "@ + e.name + e.generics + " {\n"@
        + concat_map(e.variants, |v: VariantV| "    "@ + v.name + ",\n"@) + "}\n\n"@
}

pub open spec fn trait_text(t: TraitDefV) -> Seq<char> {
    doc_block(t.doc_comment, ""@) + "pub trait "@ + t.name + " {\n"@
        + concat_map(t.methods, |m: Seq<char>| "    fn "@ + m + "(...);\n"@) + "}\n\n"@
}

pub open spec fn method_text(m: FunctionDefV) -> Seq<char> {
    doc_block(m.doc_comment, "    "@) + match m.body_summary {
        Some(b) => "    "@ + m.signature + " {\n        "@ + b + "\n    }\n"@,
        None => "    "@ + m.signature + " { ... }\n"@,
    }
}

pub open spec fn impl_text(b: ImplBlockV) -> Seq<char> {
    (match b.trait_name {
        Some(tn) => "impl "@ + tn + " for "@ + b.self_type + " {\n"@,
        None => "impl "@ + b.self_type + " {\n"@,
    }) + concat_map(b.methods, |m: FunctionDefV| method_text(m)) + "}\n\n"@
}

pub open spec fn function_text(f: FunctionDefV) -> Seq<char> {
    doc_block(f.doc_comment, ""@) + match f.body_summary {
        Some(b) => f.signature + " {\n    "@ + b + "\n}\n\n"@,
        None => f.signature + " { ... }\n\n"@,
    }
}

/// A rendering of a chunk's items as Rust-like text: structs, enums,
/// traits, impl blocks, then free functions.
pub open spec fn reconstructed(c: AnalysisChunkV) -> Seq<char> {
    note_of(c.sibling_summary) + concat_map(c.structs, |s: StructDefV| struct_text(s))
        + concat_map(c.enums, |e: EnumDefV| enum_text(e))
        + concat_map(c.traits, |t: TraitDefV| trait_text(t))
        + concat_map(c.impl_blocks, |b: ImplBlockV| impl_text(b))
        + concat_map(c.functions, |f: FunctionDefV| function_text(f))
}

/// The evidence for a chunk: the note on its siblings and its raw source,
/// or the rendering of its items when it has no raw source.
pub open spec fn formatted(c: AnalysisChunkV) -> Seq<char> {
    if c.raw_source.len() > 0 {
        note_of(c.sibling_summary) + c.raw_source
    } else {
        reconstructed(c)
    }
}

/// Extracts code evidence for the model from an analysis chunk.
pub struct EvidenceExtractor;

fn push_doc(out: &mut String, doc: &Option<String>, indent: &str)
    ensures
        final(out)@ == old(out)@ + doc_block(crate::dup::opt_view(*doc), indent@),
{
    match doc {
        Some(d) => {
            let lines = lines_of(d.as_str());
            let ghost ls = views(lines@);
            let ghost base = out@;
            let ghost f = |l: Seq<char>| indent@ + "///"@ + l + "\n"@;
            let mut i: usize = 0;
            while i < lines.len()
                invariant
                    i <= lines@.len(),
                    ls == views(lines@),
                    f == |l: Seq<char>| indent@ + "///"@ + l + "\n"@,
                    out@ == base + concat_map(ls.take(i as int), f),
                decreases lines@.len() - i,
            {
                proof {
                    assert(ls.take(i + 1).drop_last() =~= ls.take(i as int));
                    assert(ls.take(i + 1).last() == lines@[i as int]@);
                }
                push_str(out, indent);
                push_str(out, "///");
                push_str(out, lines[i].as_str());
                push_str(out, "\n");
                proof {
                    assert(out@ =~= base + (concat_map(ls.take(i as int), f) + f(lines@[i as int]@)));
                }
                i += 1;
            }
            proof {
                assert(ls.take(ls.len() as int) =~= ls);
            }
        },
        None => {
            proof {
                assert(out@ =~= old(out)@ + Seq::<char>::empty());
            }
        },
    }
}

fn push_note(out: &mut String, sibling: &Option<String>)
    ensures
        final(out)@ == old(out)@ + note_of(crate::dup::opt_view(*sibling)),
{
    match sibling {
        Some(s) => {
            push_str(out, "// Note: ");
            push_str(out, s.as_str());
            push_str(out, "\n\n");
            proof {
                assert(out@ =~= old(out)@ + ("// Note: "@ + s@ + "\n\n"@));
            }
        },
        None => {
            proof {
                assert(out@ =~= old(out)@ + Seq::<char>::empty());
            }
        },
    }
}

impl EvidenceExtractor {
    /// Formats a chunk's content for the model: the raw source when there
    /// is one, preceded by the note on sibling chunks; otherwise a rendering
    /// of its items.
    pub fn format_chunk(chunk: &AnalysisChunk) -> (res: String)
        ensures
            res@ == formatted(chunk@),
    {
        if !chunk.raw_source.as_str().is_empty() {
            let mut out = String::new();
            push_note(&mut out, &chunk.sibling_summary);
            push_str(&mut out, chunk.raw_source.as_str());
            proof {
                assert(out@ =~= note_of(chunk@.sibling_summary) + chunk@.raw_source);
            }
            return out;
        }
        Self::reconstruct_from_ast(chunk)
    }

    /// Renders a chunk's items as Rust-like text, with doc comments, field
    /// lists, variant names, method signatures and bodies where kept.
    pub fn reconstruct_from_ast(chunk: &AnalysisChunk) -> (res: String)
        ensures
            res@ == reconstructed(chunk@),
    {
        let ghost c = chunk@;
        proof {
            reveal_strlit("");
        }
        let mut out = String::new();
        push_note(&mut out, &chunk.sibling_summary);
        let ghost b0 = out@;
        let mut i: usize = 0;
        while i < chunk.structs.len()
            invariant
                i <= chunk.structs@.len(),
                c == chunk@,
                out@ == b0 + concat_map(c.structs.take(i as int), |s: StructDefV| struct_text(s)),
            decreases chunk.structs@.len() - i,
        {
            proof {
                assert(c.structs.take(i + 1).drop_last() =~= c.structs.take(i as int));
                assert(c.structs.take(i + 1).last() == chunk.structs@[i as int]@);
            }
            let ghost before = out@;
            let s = &chunk.structs[i];
            push_doc(&mut out, &s.doc_comment, "");
            push_str(&mut out, "pub struct ");
            push_str(&mut out, s.name.as_str());
            push_str(&mut out, s.generics.as_str());
            push_str(&mut out, " {\n");
            let ghost mid = out@;
            let mut k: usize = 0;
            while k < s.fields.len()
                invariant
                    k <= s.fields@.len(),
                    out@ == mid + concat_map(s@.fields.take(k as int), |f: FieldV| field_line(f)),
                decreases s.fields@.len() - k,
            {
                proof {
                    assert(s@.fields.take(k + 1).drop_last() =~= s@.fields.take(k as int));
                    assert(s@.fields.take(k + 1).last() == s.fields@[k as int]@);
                }
                let ghost fb = out@;
                push_str(&mut out, "    ");
                push_str(&mut out, s.fields[k].name.as_str());
                push_str(&mut out, ": ");
                push_str(&mut out, s.fields[k].ty.as_str());
                push_str(&mut out, ",\n");
                proof {
                    assert(out@ =~= fb + field_line(s.fields@[k as int]@));
                }
                k += 1;
            }
            push_str(&mut out, "}\n\n");
            proof {
                assert(s@.fields.take(s@.fields.len() as int) =~= s@.fields);
                assert(out@ =~= before + struct_text(s@));
            }
            i += 1;
        }
        let ghost b1 = out@;
        let mut i: usize = 0;
        while i < chunk.enums.len()
            invariant
                i <= chunk.enums@.len(),
                c == chunk@,
                out@ == b1 + concat_map(c.enums.take(i as int), |e: EnumDefV| enum_text(e)),
            decreases chunk.enums@.len() - i,
        {
            proof {
                assert(c.enums.take(i + 1).drop_last() =~= c.enums.take(i as int));
                assert(c.enums.take(i + 1).last() == chunk.enums@[i as int]@);
            }
            let ghost before = out@;
            let e = &chunk.enums[i];
            push_doc(&mut out, &e.doc_comment, "");
            push_str(&mut out, "pub enum ");
            push_str(&mut out, e.name.as_str());
            push_str(&mut out, e.generics.as_str());
            push_str(&mut out, " {\n");
            let ghost mid = out@;
            let mut k: usize = 0;
            while k < e.variants.len()
                invariant
                    k <= e.variants@.len(),
                    out@ == mid + concat_map(e@.variants.take(k as int), |v: VariantV| "    "@ + v.name + ",\n"@),
                decreases e.variants@.len() - k,
            {
                proof {
                    assert(e@.variants.take(k + 1).drop_last() =~= e@.variants.take(k as int));
                    assert(e@.variants.take(k + 1).last() == e.variants@[k as int]@);
                }
                let ghost fb = out@;
                push_str(&mut out, "    ");
                push_str(&mut out, e.variants[k].name.as_str());
                push_str(&mut out, ",\n");
                proof {
                    assert(out@ =~= fb + ("    "@ + e.variants@[k as int]@.name + ",\n"@));
                }
                k += 1;
            }
            push_str(&mut out, "}\n\n");
            proof {
                assert(e@.variants.take(e@.variants.len() as int) =~= e@.variants);
                assert(out@ =~= before + enum_text(e@));
            }
            i += 1;
        }
        let ghost b2 = out@;
        let mut i: usize = 0;
        while i < chunk.traits.len()
            invariant
                i <= chunk.traits@.len(),
                c == chunk@,
                out@ == b2 + concat_map(c.traits.take(i as int), |t: TraitDefV| trait_text(t)),
            decreases chunk.traits@.len() - i,
        {
            proof {
                assert(c.traits.take(i + 1).drop_last() =~= c.traits.take(i as int));
                assert(c.traits.take(i + 1).last() == chunk.traits@[i as int]@);
            }
            let ghost before = out@;
            let t = &chunk.traits[i];
            push_doc(&mut out, &t.doc_comment, "");
            push_str(&mut out, "pub trait ");
            push_str(&mut out, t.name.as_str());
            push_str(&mut out, " {\n");
            let ghost mid = out@;
            let mut k: usize = 0;
            while k < t.methods.len()
                invariant
                    k <= t.methods@.len(),
                    out@ == mid + concat_map(t@.methods.take(k as int), |m: Seq<char>| "    fn "@ + m + "(...);\n"@),
                decreases t.methods@.len() - k,
            {
                proof {
                    assert(t@.methods.take(k + 1).drop_last() =~= t@.methods.take(k as int));
                    assert(t@.methods.take(k + 1).last() == t.methods@[k as int]@);
                }
                let ghost fb = out@;
                push_str(&mut out, "    fn ");
                push_str(&mut out, t.methods[k].as_str());
                push_str(&mut out, "(...);\n");
                proof {
                    assert(out@ =~= fb + ("    fn "@ + t.methods@[k as int]@ + "(...);\n"@));
                }
                k += 1;
            }
            push_str(&mut out, "}\n\n");
            proof {
                assert(t@.methods.take(t@.methods.len() as int) =~= t@.methods);
                assert(out@ =~= before + trait_text(t@));
            }
            i += 1;
        }
        let ghost b3 = out@;
        let mut i: usize = 0;
        while i < chunk.impl_blocks.len()
            invariant
                i <= chunk.impl_blocks@.len(),
                c == chunk@,
                out@ == b3 + concat_map(c.impl_blocks.take(i as int), |b: ImplBlockV| impl_text(b)),
            decreases chunk.impl_blocks@.len() - i,
        {
            proof {
                assert(c.impl_blocks.take(i + 1).drop_last() =~= c.impl_blocks.take(i as int));
                assert(c.impl_blocks.take(i + 1).last() == chunk.impl_blocks@[i as int]@);
            }
            let ghost before = out@;
            let b = &chunk.impl_blocks[i];
            match &b.trait_name {
                Some(tn) => {
                    push_str(&mut out, "impl ");
                    push_str(&mut out, tn.as_str());
                    push_str(&mut out, " for ");
                    push_str(&mut out, b.self_type.as_str());
                    push_str(&mut out, " {\n");
                },
                None => {
                    push_str(&mut out, "impl ");
                    push_str(&mut out, b.self_type.as_str());
                    push_str(&mut out, " {\n");
                },
            }
            let ghost mid = out@;
            proof {
                assert(mid =~= before + match b@.trait_name {
                    Some(tn) => "impl "@ + tn + " for "@ + b@.self_type + " {\n"@,
                    None => "impl "@ + b@.self_type + " {\n"@,
                });
            }
            let mut k: usize = 0;
            while k < b.methods.len()
                invariant
                    k <= b.methods@.len(),
                    out@ == mid + concat_map(b@.methods.take(k as int), |m: FunctionDefV| method_text(m)),
                decreases b.methods@.len() - k,
            {
                proof {
                    assert(b@.methods.take(k + 1).drop_last() =~= b@.methods.take(k as int));
                    assert(b@.methods.take(k + 1).last() == b.methods@[k as int]@);
                }
                let ghost fb = out@;
                let m = &b.methods[k];
                push_doc(&mut out, &m.doc_comment, "    ");
                match &m.body_summary {
                    Some(body) => {
                        push_str(&mut out, "    ");
                        push_str(&mut out, m.signature.as_str());
                        push_str(&mut out, " {\n        ");
                        push_str(&mut out, body.as_str());
                        push_str(&mut out, "\n    }\n");
                    },
                    None => {
                        push_str(&mut out, "    ");
                        push_str(&mut out, m.signature.as_str());
                        push_str(&mut out, " { ... }\n");
                    },
                }
                proof {
                    assert(out@ =~= fb + method_text(m@));
                }
                k += 1;
            }
            push_str(&mut out, "}\n\n");
            proof {
                assert(b@.methods.take(b@.methods.len() as int) =~= b@.methods);
                assert(out@ =~= before + impl_text(b@));
            }
            i += 1;
        }
        let ghost b4 = out@;
        let mut i: usize = 0;
        while i < chunk.functions.len()
            invariant
                i <= chunk.functions@.len(),
                c == chunk@,
                out@ == b4 + concat_map(c.functions.take(i as int), |f: FunctionDefV| function_text(f)),
            decreases chunk.functions@.len() - i,
        {
            proof {
                assert(c.functions.take(i + 1).drop_last() =~= c.functions.take(i as int));
                assert(c.functions.take(i + 1).last() == chunk.functions@[i as int]@);
            }
            let ghost before = out@;
            let f = &chunk.functions[i];
            push_doc(&mut out, &f.doc_comment, "");
            match &f.body_summary {
                Some(body) => {
                    push_str(&mut out, f.signature.as_str());
                    push_str(&mut out, " {\n    ");
                    push_str(&mut out, body.as_str());
                    push_str(&mut out, "\n}\n\n");
                },
                None => {
                    push_str(&mut out, f.signature.as_str());
                    push_str(&mut out, " { ... }\n\n");
                },
            }
            proof {
                assert(out@ =~= before + function_text(f@));
            }
            i += 1;
        }
        proof {
            assert(c.structs.take(c.structs.len() as int) =~= c.structs);
            assert(c.enums.take(c.enums.len() as int) =~= c.enums);
            assert(c.traits.take(c.traits.len() as int) =~= c.traits);
            assert(c.impl_blocks.take(c.impl_blocks.len() as int) =~= c.impl_blocks);
            assert(c.functions.take(c.functions.len() as int) =~= c.functions);
            assert(out@ =~= reconstructed(c));
        }
        out
    }
}

} // verus!
