//! The earlier item-level detectors, which asked about one interesting
//! item at a time and read a line-based answer (`INVARIANT FOUND`, then
//! `Title:`, `Description:`, `Explanation:`).
use vstd::prelude::*;
use crate::detection::inference::{chunk_location, next_id};
use crate::detection::parsing::{extract_line_field, lemma_split_str_nonempty, line_field_value};
use crate::dup::views;
use crate::parser::ast::{ImplBlock, StructDef};
use crate::report::types::{Confidence, Evidence, EvidenceV, Invariant, InvariantType, InvariantV, Location, LocationV};
use crate::text::{contains_str, from_chars, seq_contains, seq_split_str, split_str_on, to_chars};

verus! {

/// An item worth asking about.
pub enum InterestingItem {
    /// A struct with a state parameter, with its impl blocks
    TypeStateCandidate { struct_def: StructDef, impl_blocks: Vec<ImplBlock> },
    /// A struct that looks like a linear resource, with its impl blocks
    LinearTypeCandidate { struct_def: StructDef, impl_blocks: Vec<ImplBlock> },
    /// An impl block whose methods move between states
    StateTransition { impl_block: ImplBlock },
    /// Anything else, described in words
    Generic { description: String },
}

/// An interesting item with the code around it and the module it is in.
pub struct CodeContext {
    pub item: InterestingItem,
    pub surrounding_code: String,
    pub module_name: String,
}

/// The file an item of interest comes from, `unknown` for a generic one.
pub open spec fn item_file(item: InterestingItem) -> Seq<char> {
    match item {
        InterestingItem::TypeStateCandidate { struct_def, .. } => struct_def.source_location.file_path@,
        InterestingItem::LinearTypeCandidate { struct_def, .. } => struct_def.source_location.file_path@,
        InterestingItem::StateTransition { impl_block } => impl_block.source_location.file_path@,
        InterestingItem::Generic { .. } => "unknown"@,
    }
}

/// The file an item of interest comes from.
pub fn item_file_path(context: &CodeContext) -> (res: String)
    ensures
        res@ == item_file(context.item),
{
    match &context.item {
        InterestingItem::TypeStateCandidate { struct_def, .. } => struct_def.source_location.file_path.clone(),
        InterestingItem::LinearTypeCandidate { struct_def, .. } => struct_def.source_location.file_path.clone(),
        InterestingItem::StateTransition { impl_block } => impl_block.source_location.file_path.clone(),
        InterestingItem::Generic { .. } => String::from_str("unknown"),
    }
}

/// The invariant one `INVARIANT FOUND` section gives: none without a title
/// or a description.
pub open spec fn line_section_invariant(
    sec: Seq<char>,
    file: Seq<char>,
    code: Seq<char>,
    id: usize,
) -> Option<InvariantV> {
    match (line_field_value(sec, "Title:"@), line_field_value(sec, "Description:"@)) {
        (Some(title), Some(description)) => Some(
            InvariantV {
                id,
                invariant_type: InvariantType::StateMachine,
                title,
                description,
                location: LocationV { file_path: file, line_start: 1, line_end: 100 },
                evidence: EvidenceV {
                    code_snippet: code,
                    explanation: match line_field_value(sec, "Explanation:"@) {
                        Some(e) => e,
                        None => Seq::empty(),
                    },
                },
                suggested_pattern: Seq::empty(),
                confidence: Confidence::Medium,
                entity: Seq::empty(),
            },
        ),
        _ => None,
    }
}

/// The invariants of the sections of a line-based answer, numbered from
/// `id`.
pub open spec fn from_line_sections(
    secs: Seq<Seq<char>>,
    file: Seq<char>,
    code: Seq<char>,
    id: usize,
) -> Seq<InvariantV>
    decreases secs.len(),
{
    if secs.len() == 0 {
        Seq::empty()
    } else {
        match line_section_invariant(secs[0], file, code, id) {
            Some(v) => seq![v] + from_line_sections(secs.drop_first(), file, code, next_id(id)),
            None => from_line_sections(secs.drop_first(), file, code, id),
        }
    }
}

/// The invariants of a line-based answer: none when it says
/// `NO INVARIANTS FOUND`, else one per `INVARIANT FOUND` section with a
/// title and a description.
pub open spec fn line_invariants(
    response: Seq<char>,
    file: Seq<char>,
    code: Seq<char>,
    id: usize,
) -> Seq<InvariantV> {
    if seq_contains(response, "NO INVARIANTS FOUND"@) {
        Seq::empty()
    } else {
        from_line_sections(
            seq_split_str(response, "INVARIANT FOUND"@).drop_first(),
            file,
            code,
            id,
        )
    }
}

/// The id after `id`, wrapping around.
fn bump(id: usize) -> (res: usize)
    ensures
        res == next_id(id),
{
    if id == usize::MAX {
        0
    } else {
        id + 1
    }
}

/// The invariant one section of a line-based answer gives.
fn line_section(section: &str, context: &CodeContext, next: &mut usize) -> (res: Option<Invariant>)
    ensures
        match line_section_invariant(section@, item_file(context.item), context.surrounding_code@, *old(next)) {
            Some(v) => res is Some && res->0@ == v && *final(next) == next_id(*old(next)),
            None => res is None && *final(next) == *old(next),
        },
{
    let title = match extract_line_field(section, "Title:") {
        Some(t) => t,
        None => {
            return None;
        },
    };
    let description = match extract_line_field(section, "Description:") {
        Some(d) => d,
        None => {
            return None;
        },
    };
    let explanation = match extract_line_field(section, "Explanation:") {
        Some(e) => e,
        None => String::new(),
    };
    let id = *next;
    *next = bump(id);
    Some(
        Invariant {
            id,
            invariant_type: InvariantType::StateMachine,
            title,
            description,
            location: Location { file_path: item_file_path(context), line_start: 1, line_end: 100 },
            evidence: Evidence { code_snippet: context.surrounding_code.clone(), explanation },
            suggested_pattern: String::new(),
            confidence: Confidence::Medium,
            entity: String::new(),
        },
    )
}

/// Finds typestate invariants in one item at a time.
pub struct StateMachineDetector;

impl StateMachineDetector {
    pub fn new() -> (res: Self) {
        StateMachineDetector
    }

    /// The value of a field of a line-based answer.
    pub fn extract_field(&self, text: &str, field_name: &str) -> (res: Option<String>)
        ensures
            crate::dup::opt_view(res) == line_field_value(text@, field_name@),
    {
        extract_line_field(text, field_name)
    }

    /// The invariants of a line-based answer about `context`, numbered from
    /// `next_id`; the code around the item is their evidence.
    pub fn parse_response(
        &self,
        response: &str,
        context: &CodeContext,
        next_id: &mut usize,
    ) -> (res: Result<Vec<Invariant>, String>)
        ensures
            res matches Ok(v) && views(v@) == line_invariants(
                response@,
                item_file(context.item),
                context.surrounding_code@,
                *old(next_id),
            ),
    {
        let rc = to_chars(response);
        if contains_str(rc.as_slice(), "NO INVARIANTS FOUND") {
            return Ok(Vec::new());
        }
        let marker = to_chars("INVARIANT FOUND");
        proof {
            reveal_strlit("INVARIANT FOUND");
            lemma_split_str_nonempty(response@, "INVARIANT FOUND"@);
        }
        let pieces = split_str_on(rc.as_slice(), marker.as_slice());
        let ghost secs = seq_split_str(response@, "INVARIANT FOUND"@).drop_first();
        let ghost file = item_file(context.item);
        let ghost code = context.surrounding_code@;
        let ghost start = *next_id;
        let mut out: Vec<Invariant> = Vec::new();
        let mut k: usize = 1;
        assert(secs.skip(0) =~= secs);
        assert(views(out@) + from_line_sections(secs.skip(0), file, code, *next_id)
            =~= from_line_sections(secs, file, code, start));
        while k < pieces.len()
            invariant
                1 <= k <= pieces@.len(),
                pieces@.len() == seq_split_str(response@, "INVARIANT FOUND"@).len(),
                forall|i: int| 0 <= i < pieces@.len() ==> #[trigger] pieces@[i]@ == seq_split_str(
                    response@,
                    "INVARIANT FOUND"@,
                )[i],
                secs == seq_split_str(response@, "INVARIANT FOUND"@).drop_first(),
                file == item_file(context.item),
                code == context.surrounding_code@,
                views(out@) + from_line_sections(secs.skip(k - 1), file, code, *next_id)
                    == from_line_sections(secs, file, code, start),
            decreases pieces@.len() - k,
        {
            let section = from_chars(pieces[k].as_slice());
            proof {
                assert(secs.skip(k - 1)[0] == section@);
                assert(secs.skip(k - 1).drop_first() =~= secs.skip(k as int));
            }
            let ghost before = views(out@);
            match line_section(section.as_str(), context, next_id) {
                Some(made) => {
                    out.push(made);
                    proof {
                        assert(views(out@) =~= before.push(made@));
                        assert(before + seq![made@] + from_line_sections(secs.skip(k as int), file, code, *next_id)
                            =~= before + (seq![made@] + from_line_sections(secs.skip(k as int), file, code, *next_id)));
                    }
                },
                None => {},
            }
            k += 1;
        }
        assert(secs.skip(k - 1) =~= Seq::<Seq<char>>::empty());
        assert(views(out@) + Seq::<InvariantV>::empty() =~= views(out@));
        Ok(out)
    }
}

impl Default for StateMachineDetector {
    fn default() -> (res: Self) {
        StateMachineDetector::new()
    }
}

/// Finds linear-type and capability invariants in one item at a time.
pub struct LinearTypeDetector;

impl LinearTypeDetector {
    pub fn new() -> (res: Self) {
        LinearTypeDetector
    }

    /// The value of a field of a line-based answer.
    pub fn extract_field(&self, text: &str, field_name: &str) -> (res: Option<String>)
        ensures
            crate::dup::opt_view(res) == line_field_value(text@, field_name@),
    {
        extract_line_field(text, field_name)
    }
}

impl Default for LinearTypeDetector {
    fn default() -> (res: Self) {
        LinearTypeDetector::new()
    }
}

} // verus!
