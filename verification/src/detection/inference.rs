//! The latent-invariant detector: the prompt it sends for a chunk, and the
//! invariants it makes of the model's answer.
use vstd::prelude::*;
use crate::detection::answer::{
    citation_tally, citations_weak, compile_time_noise, enum_variant_noise, is_compile_time_noise,
    is_enum_variant_noise, verify_citations, LlmInvariant, LlmInvariantV,
};
use crate::detection::parsing::{
    classify_from_text, confidence_named, downgrade_confidence, extract_field, field_value,
    kind_from_text, kind_named, parse_confidence, parse_invariant_kind, lemma_split_str_nonempty,
};
use crate::detection::prompts::{
    PROMPT_AFTER_CODE, PROMPT_BEFORE_CODE, PROMPT_BEFORE_FILE, PROMPT_BEFORE_MODULE,
};
use crate::dup::views;
use crate::navigation::chunk::AnalysisChunk;
use crate::navigation::priority::{all_ascii, ascii_lower, lowercase, to_lowercase};
use crate::report::types::{
    Confidence, Evidence, EvidenceV, Invariant, InvariantType, InvariantV, Location, LocationV,
};
use crate::text::{
    contains_str, join, lines_of, push_str, seq_contains, seq_join, seq_lines, seq_split_str,
    seq_starts_with, seq_trim, split_str_on, starts_with_str, to_chars, trim, from_chars,
    split_lines,
};

verus! {

// ---------------------------------------------------------------------------
// Invariant ids
// ---------------------------------------------------------------------------

/// The id after `id`, wrapping around at the top of `usize` as an atomic
/// counter does.
pub open spec fn next_id(id: usize) -> usize {
    if id == usize::MAX {
        0
    } else {
        (id + 1) as usize
    }
}

/// The id `n` steps after `id`.
pub open spec fn advance(id: usize, n: nat) -> usize
    decreases n,
{
    if n == 0 {
        id
    } else {
        next_id(advance(id, (n - 1) as nat))
    }
}

/// Hands out the next id.
fn take_id(next: &mut usize) -> (res: usize)
    ensures
        res == *old(next),
        *final(next) == next_id(*old(next)),
{
    let id = *next;
    if id == usize::MAX {
        *next = 0;
    } else {
        *next = id + 1;
    }
    id
}

// ---------------------------------------------------------------------------
// Invariants from the JSON answer
// ---------------------------------------------------------------------------

/// The states an answer names: its list of states, or its single state.
pub open spec fn states_of(inv: LlmInvariantV) -> Seq<Seq<char>> {
    if inv.states.len() > 0 {
        inv.states
    } else if inv.state.len() > 0 {
        seq![inv.state]
    } else {
        Seq::empty()
    }
}

/// One `- transition` line per transition.
pub open spec fn transition_lines(ts: Seq<Seq<char>>) -> Seq<char>
    decreases ts.len(),
{
    if ts.len() == 0 {
        Seq::empty()
    } else {
        transition_lines(ts.drop_last()) + "- "@ + ts.last() + "\n"@
    }
}

/// The explanation given with an invariant from the JSON answer: its
/// entity, states and transitions where it has them, then its evidence and
/// how to implement it.
pub open spec fn explanation_of(inv: LlmInvariantV) -> Seq<char> {
    (if inv.entity.len() > 0 {
        "**Entity:** "@ + inv.entity + "\n\n"@
    } else {
        Seq::empty()
    }) + (if states_of(inv).len() > 0 {
        "**States:** "@ + seq_join(states_of(inv), ", "@) + "\n\n"@
    } else {
        Seq::empty()
    }) + (if inv.transitions.len() > 0 {
        "**Transitions:**\n"@ + transition_lines(inv.transitions) + "\n"@
    } else {
        Seq::empty()
    }) + "**Evidence:** "@ + seq_join(inv.evidence, "; "@) + "\n\n"@ + "**Implementation:** "@
        + inv.implementation_sketch
}

/// The confidence of an invariant from the JSON answer: the one it states,
/// one level lower when its line citations are weak.
pub open spec fn adjusted_confidence(inv: LlmInvariantV, snippet: Seq<char>) -> Confidence {
    let t = citation_tally(inv.evidence, seq_lines(snippet), lowercase(snippet));
    if citations_weak(t.0, t.1) {
        if lowercase(inv.confidence) == "high"@ {
            Confidence::Medium
        } else {
            Confidence::Low
        }
    } else {
        confidence_named(lowercase(inv.confidence))
    }
}

/// The location of every invariant found in a chunk: its file, from the
/// first line to the last line of the snippet.
pub open spec fn chunk_location(path: Seq<char>, snippet: Seq<char>) -> LocationV {
    LocationV { file_path: path, line_start: 1, line_end: seq_lines(snippet).len() as usize }
}

/// The invariant made of one answer of the JSON form.
pub open spec fn from_answer(
    inv: LlmInvariantV,
    path: Seq<char>,
    snippet: Seq<char>,
    id: usize,
) -> InvariantV {
    InvariantV {
        id,
        invariant_type: kind_named(lowercase(inv.kind)),
        title: inv.name,
        description: inv.description,
        location: chunk_location(path, snippet),
        evidence: EvidenceV { code_snippet: snippet, explanation: explanation_of(inv) },
        suggested_pattern: inv.suggested_pattern,
        confidence: adjusted_confidence(inv, snippet),
        entity: inv.entity,
    }
}

/// An answer is kept unless it is noise.
pub open spec fn kept(inv: LlmInvariantV) -> bool {
    !compile_time_noise(inv) && !enum_variant_noise(inv)
}

/// The invariants made of the answers that are kept, in order, numbered
/// from `id`.
pub open spec fn from_answers(
    s: Seq<LlmInvariantV>,
    path: Seq<char>,
    snippet: Seq<char>,
    id: usize,
) -> Seq<InvariantV>
    decreases s.len(),
{
    if s.len() == 0 {
        Seq::empty()
    } else if kept(s[0]) {
        seq![from_answer(s[0], path, snippet, id)] + from_answers(
            s.drop_first(),
            path,
            snippet,
            next_id(id),
        )
    } else {
        from_answers(s.drop_first(), path, snippet, id)
    }
}

/// The `- transition` lines of a list of transitions.
fn transitions_text(ts: &Vec<String>) -> (res: String)
    ensures
        res@ == transition_lines(views(ts@)),
{
    let mut out = String::new();
    let mut i: usize = 0;
    let ghost vs = views(ts@);
    assert(vs.take(0) =~= Seq::<Seq<char>>::empty());
    while i < ts.len()
        invariant
            i <= ts@.len(),
            vs == views(ts@),
            out@ == transition_lines(vs.take(i as int)),
        decreases ts@.len() - i,
    {
        push_str(&mut out, "- ");
        push_str(&mut out, ts[i].as_str());
        push_str(&mut out, "\n");
        proof {
            assert(vs.take(i + 1).drop_last() =~= vs.take(i as int));
        }
        i += 1;
    }
    assert(vs.take(i as int) =~= vs);
    out
}

/// The explanation given with an invariant from the JSON answer.
fn explanation_text(inv: &LlmInvariant) -> (res: String)
    ensures
        res@ == explanation_of(inv@),
{
    let mut out = String::new();
    if !inv.entity.as_str().is_empty() {
        push_str(&mut out, "**Entity:** ");
        push_str(&mut out, inv.entity.as_str());
        push_str(&mut out, "\n\n");
    }
    let ghost after_entity = out@;
    let mut states: Vec<String> = Vec::new();
    if inv.states.len() > 0 {
        states = crate::dup::dup_strings(&inv.states);
        assert(views(states@) =~= views(inv.states@));
    } else if !inv.state.as_str().is_empty() {
        states.push(inv.state.clone());
        assert(views(states@) =~= seq![inv.state@]);
    }
    assert(views(states@) == states_of(inv@));
    if states.len() > 0 {
        push_str(&mut out, "**States:** ");
        let joined = join(&states, ", ");
        push_str(&mut out, joined.as_str());
        push_str(&mut out, "\n\n");
    }
    if inv.transitions.len() > 0 {
        push_str(&mut out, "**Transitions:**\n");
        let t = transitions_text(&inv.transitions);
        push_str(&mut out, t.as_str());
        push_str(&mut out, "\n");
    }
    push_str(&mut out, "**Evidence:** ");
    let ev = join(&inv.evidence, "; ");
    push_str(&mut out, ev.as_str());
    push_str(&mut out, "\n\n");
    push_str(&mut out, "**Implementation:** ");
    push_str(&mut out, inv.implementation_sketch.as_str());
    out
}

/// The confidence of an answer, one level lower when its citations are weak.
fn answer_confidence(inv: &LlmInvariant, snippet: &str) -> (res: Confidence)
    ensures
        res == adjusted_confidence(inv@, snippet@),
{
    let tally = verify_citations(&inv.evidence, snippet);
    let weak = tally.total > 0 && (tally.verified as u128) * 10 < (tally.total as u128) * 3;
    if weak {
        let lowered = downgrade_confidence(inv.confidence.as_str());
        proof {
            reveal_strlit("medium");
            reveal_strlit("low");
            reveal_strlit("high");
            assert(all_ascii(lowered@));
            assert(lowered@.map_values(|c: char| ascii_lower(c)) =~= lowered@);
        }
        parse_confidence(lowered.as_str())
    } else {
        parse_confidence(inv.confidence.as_str())
    }
}

/// The location of the invariants of a chunk.
fn chunk_location_exec(path: &String, snippet: &str) -> (res: Location)
    ensures
        res@ == chunk_location(path@, snippet@),
{
    let sc = to_chars(snippet);
    let lines = split_lines(sc.as_slice());
    Location { file_path: path.clone(), line_start: 1, line_end: lines.len() }
}

/// The invariant made of one answer of the JSON form.
fn invariant_from_answer(
    inv: &LlmInvariant,
    chunk: &AnalysisChunk,
    snippet: &str,
    id: usize,
) -> (res: Invariant)
    ensures
        res@ == from_answer(inv@, chunk.file_path@, snippet@, id),
{
    let explanation = explanation_text(inv);
    let confidence = answer_confidence(inv, snippet);
    Invariant {
        id,
        invariant_type: parse_invariant_kind(inv.kind.as_str()),
        title: inv.name.clone(),
        description: inv.description.clone(),
        location: chunk_location_exec(&chunk.file_path, snippet),
        evidence: Evidence { code_snippet: String::from_str(snippet), explanation },
        suggested_pattern: inv.suggested_pattern.clone(),
        confidence,
        entity: inv.entity.clone(),
    }
}

/// The invariants made of the answers of the JSON form that are not noise,
/// numbered from `next`.
fn invariants_from_answers(
    parsed: &Vec<LlmInvariant>,
    chunk: &AnalysisChunk,
    snippet: &str,
    next: &mut usize,
) -> (res: Vec<Invariant>)
    ensures
        views(res@) == from_answers(views(parsed@), chunk.file_path@, snippet@, *old(next)),
        *final(next) == advance(*old(next), res@.len()),
{
    let ghost all = views(parsed@);
    let ghost start = *next;
    let ghost path = chunk.file_path@;
    let mut out: Vec<Invariant> = Vec::new();
    let mut k: usize = 0;
    assert(all.skip(0) =~= all);
    assert(views(out@) + from_answers(all.skip(0), path, snippet@, *next) =~= from_answers(
        all,
        path,
        snippet@,
        start,
    ));
    while k < parsed.len()
        invariant
            k <= parsed@.len(),
            all == views(parsed@),
            path == chunk.file_path@,
            *next == advance(start, out@.len()),
            views(out@) + from_answers(all.skip(k as int), path, snippet@, *next) == from_answers(
                all,
                path,
                snippet@,
                start,
            ),
        decreases parsed@.len() - k,
    {
        let inv = &parsed[k];
        proof {
            assert(all.skip(k as int)[0] == inv@);
            assert(all.skip(k as int).drop_first() =~= all.skip(k + 1));
        }
        if !is_compile_time_noise(inv) && !is_enum_variant_noise(inv) {
            let ghost before = views(out@);
            let id = take_id(next);
            let made = invariant_from_answer(inv, chunk, snippet, id);
            out.push(made);
            proof {
                assert(views(out@) =~= before.push(made@));
                assert(before + seq![made@] + from_answers(all.skip(k + 1), path, snippet@, *next)
                    =~= before + (seq![made@] + from_answers(all.skip(k + 1), path, snippet@, *next)));
            }
        }
        k += 1;
    }
    assert(all.skip(k as int) =~= Seq::<LlmInvariantV>::empty());
    assert(views(out@) + Seq::<InvariantV>::empty() =~= views(out@));
    out
}

// ---------------------------------------------------------------------------
// Invariants from a plain-text answer
// ---------------------------------------------------------------------------

/// A field's value, or the empty text when it is absent.
pub open spec fn or_empty(o: Option<Seq<char>>) -> Seq<char> {
    match o {
        Some(v) => v,
        None => Seq::empty(),
    }
}

/// The invariant one section of a plain-text answer gives: none for the
/// `INVARIANTS FOUND` heading or a section without a name or description.
pub open spec fn section_invariant(
    sec: Seq<char>,
    path: Seq<char>,
    snippet: Seq<char>,
    id: usize,
) -> Option<InvariantV> {
    if seq_starts_with(seq_trim(sec), "S FOUND"@) {
        None
    } else {
        match (field_value(sec, "Name:"@), field_value(sec, "Description:"@)) {
            (Some(name), Some(description)) => {
                let evidence = or_empty(field_value(sec, "Evidence:"@));
                let pattern = or_empty(field_value(sec, "Pattern:"@));
                let implementation = or_empty(field_value(sec, "Implementation:"@));
                Some(
                    InvariantV {
                        id,
                        invariant_type: kind_from_text(lowercase(pattern), lowercase(description)),
                        title: name,
                        description,
                        location: chunk_location(path, snippet),
                        evidence: EvidenceV {
                            code_snippet: snippet,
                            explanation: "**Evidence:** "@ + evidence + "\n\n**Implementation:** "@
                                + implementation,
                        },
                        suggested_pattern: pattern,
                        confidence: Confidence::Medium,
                        entity: Seq::empty(),
                    },
                )
            },
            _ => None,
        }
    }
}

/// The invariants of the sections of a plain-text answer, numbered from
/// `id`.
pub open spec fn from_sections(
    secs: Seq<Seq<char>>,
    path: Seq<char>,
    snippet: Seq<char>,
    id: usize,
) -> Seq<InvariantV>
    decreases secs.len(),
{
    if secs.len() == 0 {
        Seq::empty()
    } else {
        match section_invariant(secs[0], path, snippet, id) {
            Some(v) => seq![v] + from_sections(secs.drop_first(), path, snippet, next_id(id)),
            None => from_sections(secs.drop_first(), path, snippet, id),
        }
    }
}

/// The answer says there is nothing: it holds `[]` or `NO INVARIANTS`, or
/// only whitespace.
pub open spec fn says_none(response: Seq<char>) -> bool {
    seq_contains(response, "[]"@) || seq_contains(response, "NO INVARIANTS"@) || seq_trim(
        response,
    ).len() == 0
}

/// The invariants of a plain-text answer: one for each `INVARIANT` section
/// with a name and a description.
pub open spec fn text_invariants(
    response: Seq<char>,
    path: Seq<char>,
    snippet: Seq<char>,
    id: usize,
) -> Seq<InvariantV> {
    if says_none(response) {
        Seq::empty()
    } else {
        from_sections(seq_split_str(response, "INVARIANT"@).drop_first(), path, snippet, id)
    }
}

/// A field's value, or the empty string.
fn field_or_empty(text: &str, name: &str) -> (res: String)
    ensures
        res@ == or_empty(field_value(text@, name@)),
{
    match extract_field(text, name) {
        Some(v) => v,
        None => String::new(),
    }
}

/// The invariant one section of a plain-text answer gives.
fn invariant_from_section(
    section: &str,
    chunk: &AnalysisChunk,
    snippet: &str,
    next: &mut usize,
) -> (res: Option<Invariant>)
    ensures
        match section_invariant(section@, chunk.file_path@, snippet@, *old(next)) {
            Some(v) => res is Some && res->0@ == v && *final(next) == next_id(*old(next)),
            None => res is None && *final(next) == *old(next),
        },
{
    let sc = to_chars(section);
    let t = trim(sc.as_slice());
    if starts_with_str(t.as_slice(), "S FOUND") {
        return None;
    }
    let name = match extract_field(section, "Name:") {
        Some(v) => v,
        None => {
            return None;
        },
    };
    let description = match extract_field(section, "Description:") {
        Some(v) => v,
        None => {
            return None;
        },
    };
    let evidence = field_or_empty(section, "Evidence:");
    let pattern = field_or_empty(section, "Pattern:");
    let implementation = field_or_empty(section, "Implementation:");
    let mut explanation = String::from_str("**Evidence:** ");
    push_str(&mut explanation, evidence.as_str());
    push_str(&mut explanation, "\n\n**Implementation:** ");
    push_str(&mut explanation, implementation.as_str());
    let invariant_type = classify_from_text(pattern.as_str(), description.as_str());
    let id = take_id(next);
    Some(
        Invariant {
            id,
            invariant_type,
            title: name,
            description,
            location: chunk_location_exec(&chunk.file_path, snippet),
            evidence: Evidence { code_snippet: String::from_str(snippet), explanation },
            suggested_pattern: pattern,
            confidence: Confidence::Medium,
            entity: String::new(),
        },
    )
}

/// The invariants of a plain-text answer, numbered from `next`.
fn invariants_from_text(
    response: &str,
    chunk: &AnalysisChunk,
    snippet: &str,
    next: &mut usize,
) -> (res: Vec<Invariant>)
    ensures
        views(res@) == text_invariants(response@, chunk.file_path@, snippet@, *old(next)),
        *final(next) == advance(*old(next), res@.len()),
{
    let rc = to_chars(response);
    let t = trim(rc.as_slice());
    if contains_str(rc.as_slice(), "[]") || contains_str(rc.as_slice(), "NO INVARIANTS")
        || t.len() == 0 {
        return Vec::new();
    }
    let marker = to_chars("INVARIANT");
    proof {
        reveal_strlit("INVARIANT");
    }
    let pieces = split_str_on(rc.as_slice(), marker.as_slice());
    let ghost secs = seq_split_str(response@, "INVARIANT"@).drop_first();
    let ghost path = chunk.file_path@;
    let ghost start = *next;
    proof {
        lemma_split_str_nonempty(response@, "INVARIANT"@);
    }
    let mut out: Vec<Invariant> = Vec::new();
    let mut k: usize = 1;
    assert(secs.skip(0) =~= secs);
    assert(views(out@) + from_sections(secs.skip(0), path, snippet@, *next) =~= from_sections(
        secs,
        path,
        snippet@,
        start,
    ));
    while k < pieces.len()
        invariant
            1 <= k <= pieces@.len(),
            pieces@.len() == seq_split_str(response@, "INVARIANT"@).len(),
            forall|i: int| 0 <= i < pieces@.len() ==> #[trigger] pieces@[i]@ == seq_split_str(
                response@,
                "INVARIANT"@,
            )[i],
            secs == seq_split_str(response@, "INVARIANT"@).drop_first(),
            path == chunk.file_path@,
            *next == advance(start, out@.len()),
            views(out@) + from_sections(secs.skip(k - 1), path, snippet@, *next) == from_sections(
                secs,
                path,
                snippet@,
                start,
            ),
        decreases pieces@.len() - k,
    {
        let section = from_chars(pieces[k].as_slice());
        proof {
            assert(secs.skip(k - 1)[0] == section@);
            assert(secs.skip(k - 1).drop_first() =~= secs.skip(k as int));
        }
        let ghost before = views(out@);
        match invariant_from_section(section.as_str(), chunk, snippet, next) {
            Some(made) => {
                out.push(made);
                proof {
                    assert(views(out@) =~= before.push(made@));
                    assert(before + seq![made@] + from_sections(secs.skip(k as int), path, snippet@, *next)
                        =~= before + (seq![made@] + from_sections(secs.skip(k as int), path, snippet@, *next)));
                }
            },
            None => {},
        }
        k += 1;
    }
    assert(secs.skip(k - 1) =~= Seq::<Seq<char>>::empty());
    assert(views(out@) + Seq::<InvariantV>::empty() =~= views(out@));
    out
}

// ---------------------------------------------------------------------------
// The detector
// ---------------------------------------------------------------------------

/// The user prompt for a chunk: the module path, the file path and the
/// chunk's code set into the prompt text.
pub open spec fn inference_prompt(module: Seq<char>, file: Seq<char>, code: Seq<char>) -> Seq<char> {
    PROMPT_BEFORE_MODULE@ + module + PROMPT_BEFORE_FILE@ + file + PROMPT_BEFORE_CODE@ + code
        + PROMPT_AFTER_CODE@
}

/// Analyzes module-level code chunks for latent invariants: implicit
/// protocols and ordering requirements that the type system does not yet
/// enforce.
pub struct InvariantInferenceDetector;

impl InvariantInferenceDetector {
    pub fn new() -> (res: Self) {
        InvariantInferenceDetector
    }

    /// The user prompt sent for a chunk whose formatted code is `code`.
    pub fn user_prompt(&self, chunk: &AnalysisChunk, code: &str) -> (res: String)
        ensures
            res@ == inference_prompt(chunk.module_name@, chunk.file_path@, code@),
    {
        let mut p = String::from_str(PROMPT_BEFORE_MODULE);
        push_str(&mut p, chunk.module_name.as_str());
        push_str(&mut p, PROMPT_BEFORE_FILE);
        push_str(&mut p, chunk.file_path.as_str());
        push_str(&mut p, PROMPT_BEFORE_CODE);
        push_str(&mut p, code);
        push_str(&mut p, PROMPT_AFTER_CODE);
        p
    }

    /// The invariants of the model's answer for a chunk. `parsed` is the
    /// answer's JSON array (see `extract_json_array`) read as a list of
    /// answers, when it could be read: then the answers that are not noise
    /// become invariants; otherwise the answer is read in its plain-text
    /// form. Ids are handed out from `next_id`, one per invariant.
    pub fn parse_response(
        &self,
        response: &str,
        parsed: Option<Vec<LlmInvariant>>,
        chunk: &AnalysisChunk,
        code_snippet: &str,
        next_id: &mut usize,
    ) -> (res: Result<Vec<Invariant>, String>)
        ensures
            res is Ok,
            res matches Ok(v) ==> views(v@) == match parsed {
                Some(p) => from_answers(views(p@), chunk.file_path@, code_snippet@, *old(next_id)),
                None => text_invariants(response@, chunk.file_path@, code_snippet@, *old(next_id)),
            } && *final(next_id) == advance(*old(next_id), v@.len()),
    {
        match parsed {
            Some(p) => Ok(invariants_from_answers(&p, chunk, code_snippet, next_id)),
            None => Ok(invariants_from_text(response, chunk, code_snippet, next_id)),
        }
    }
}

impl Default for InvariantInferenceDetector {
    fn default() -> (res: Self) {
        InvariantInferenceDetector::new()
    }
}

/// Routes the analysis of every chunk through the latent-invariant
/// inference.
pub struct InvariantDetector {
    pub inference: InvariantInferenceDetector,
}

impl InvariantDetector {
    pub fn new() -> (res: Self) {
        InvariantDetector { inference: InvariantInferenceDetector::new() }
    }
}

impl Default for InvariantDetector {
    fn default() -> (res: Self) {
        InvariantDetector::new()
    }
}

/// The answers that are not noise, in order.
pub open spec fn kept_answers(s: Seq<LlmInvariantV>) -> Seq<LlmInvariantV>
    decreases s.len(),
{
    if s.len() == 0 {
        Seq::empty()
    } else if kept(s[0]) {
        seq![s[0]] + kept_answers(s.drop_first())
    } else {
        kept_answers(s.drop_first())
    }
}

proof fn lemma_advance_next(id: usize, j: nat)
    ensures
        advance(next_id(id), j) == advance(id, j + 1),
    decreases j,
{
    if j > 0 {
        lemma_advance_next(id, (j - 1) as nat);
        assert(advance(next_id(id), j) == next_id(advance(next_id(id), (j - 1) as nat)));
        assert(advance(id, j + 1) == next_id(advance(id, ((j + 1) - 1) as nat)));
        assert(((j + 1) - 1) as nat == j);
    } else {
        assert(advance(id, 1) == next_id(advance(id, 0)));
    }
}

/// Counting up from `id` without passing `usize::MAX` adds the steps.
pub proof fn lemma_advance_adds(id: usize, n: nat)
    requires
        id + n <= usize::MAX,
    ensures
        advance(id, n) == id + n,
    decreases n,
{
    if n > 0 {
        lemma_advance_adds(id, (n - 1) as nat);
    }
}

/// The invariants made of a model's answers are the answers that are not
/// noise, in order, each made into an invariant, and numbered one after
/// another from the id the detector had: the `i`-th has the id `i` steps
/// on, which is `id + i` while no id passes `usize::MAX`.
pub proof fn law_answers_numbered(s: Seq<LlmInvariantV>, path: Seq<char>, snippet: Seq<char>, id: usize)
    ensures
        ({
            let r = from_answers(s, path, snippet, id);
            let k = kept_answers(s);
            &&& r.len() == k.len()
            &&& forall|i: int| 0 <= i < r.len() ==> #[trigger] r[i] == from_answer(k[i], path, snippet, advance(id, i as nat))
            &&& forall|i: int| 0 <= i < r.len() && id + r.len() <= usize::MAX ==> (#[trigger] r[i]).id == id + i
        }),
    decreases s.len(),
{
    let r = from_answers(s, path, snippet, id);
    let k = kept_answers(s);
    if s.len() > 0 {
        let t = s.drop_first();
        if kept(s[0]) {
            law_answers_numbered(t, path, snippet, next_id(id));
            let r2 = from_answers(t, path, snippet, next_id(id));
            let k2 = kept_answers(t);
            assert forall|i: int| 0 <= i < r.len() implies #[trigger] r[i] == from_answer(k[i], path, snippet, advance(id, i as nat)) by {
                if i > 0 {
                    assert(r[i] == r2[i - 1]);
                    assert(k[i] == k2[i - 1]);
                    lemma_advance_next(id, (i - 1) as nat);
                }
            }
        } else {
            law_answers_numbered(t, path, snippet, id);
        }
    }
    assert forall|i: int| 0 <= i < r.len() && id + r.len() <= usize::MAX implies (#[trigger] r[i]).id == id + i by {
        lemma_advance_adds(id, i as nat);
    }
}

} // verus!
