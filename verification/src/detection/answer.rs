//! One invariant as the model reports it, the checks that set noise aside,
//! and the check of the line citations in its evidence.
use vstd::prelude::*;
use crate::dup::views;
use crate::navigation::priority::{lowercase, to_lowercase};
use crate::text::{
    any_contains, contains, contains_any, contains_str, ends_with_str, find, lemma_find_from,
    matches_at, seq_contains, seq_ends_with, seq_find, seq_lines, seq_starts_with, seq_trim,
    slice_range, split_lines, starts_with_str, str_views, to_chars, trim, push_str, from_chars,
    parse_usize, parsed_uint,
};

verus! {

/// One invariant as the model reports it in its JSON answer.
pub struct LlmInvariant {
    pub entity: String,
    pub name: String,
    /// The states of the entity (e.g. `["Open", "Closed"]`)
    pub states: Vec<String>,
    /// A single state, as older answers give it
    pub state: String,
    pub kind: String,
    pub description: String,
    pub transitions: Vec<String>,
    pub evidence: Vec<String>,
    pub suggested_pattern: String,
    pub implementation_sketch: String,
    pub confidence: String,
}

pub struct LlmInvariantV {
    pub entity: Seq<char>,
    pub name: Seq<char>,
    pub states: Seq<Seq<char>>,
    pub state: Seq<char>,
    pub kind: Seq<char>,
    pub description: Seq<char>,
    pub transitions: Seq<Seq<char>>,
    pub evidence: Seq<Seq<char>>,
    pub suggested_pattern: Seq<char>,
    pub implementation_sketch: Seq<char>,
    pub confidence: Seq<char>,
}

impl View for LlmInvariant {
    type V = LlmInvariantV;

    open spec fn view(&self) -> LlmInvariantV {
        LlmInvariantV {
            entity: self.entity@,
            name: self.name@,
            states: views(self.states@),
            state: self.state@,
            kind: self.kind@,
            description: self.description@,
            transitions: views(self.transitions@),
            evidence: views(self.evidence@),
            suggested_pattern: self.suggested_pattern@,
            implementation_sketch: self.implementation_sketch@,
            confidence: self.confidence@,
        }
    }
}

// ---------------------------------------------------------------------------
// Noise
// ---------------------------------------------------------------------------

/// Words that mark an invariant about conditional compilation, documentation
/// or what the compiler already checks.
pub open spec fn compile_noise_words() -> Seq<Seq<char>> {
    seq![
        "cfg_select"@,
        "cfg_if"@,
        "cfg_attr"@,
        "feature gate"@,
        "conditional compilation"@,
        "variant correctness"@,
        "enum exhaustiveness"@,
        "documentation policy"@,
        "doc comment"@,
        "api stability"@,
        "compile-time"@,
    ]
}

/// The invariant is about conditional compilation or a compile-time
/// property: one of the noise words occurs in its entity, name and
/// description, lowercased together.
pub open spec fn compile_time_noise(inv: LlmInvariantV) -> bool {
    any_contains(
        lowercase(inv.entity + " "@ + inv.name + " "@ + inv.description),
        compile_noise_words(),
    )
}

/// Whether an invariant is about conditional compilation or a property the
/// compiler already guarantees.
pub fn is_compile_time_noise(inv: &LlmInvariant) -> (res: bool)
    ensures
        res == compile_time_noise(inv@),
{
    let mut text = inv.entity.clone();
    push_str(&mut text, " ");
    push_str(&mut text, inv.name.as_str());
    push_str(&mut text, " ");
    push_str(&mut text, inv.description.as_str());
    let lower = to_lowercase(text.as_str());
    let lc = to_chars(lower.as_str());
    let words: Vec<&str> = vec![
        "cfg_select",
        "cfg_if",
        "cfg_attr",
        "feature gate",
        "conditional compilation",
        "variant correctness",
        "enum exhaustiveness",
        "documentation policy",
        "doc comment",
        "api stability",
        "compile-time",
    ];
    assert(str_views(words@) =~= compile_noise_words());
    contains_any(lc.as_slice(), &words)
}

/// Phrases of a description that only explains what an enum variant means.
pub open spec fn variant_phrases() -> Seq<Seq<char>> {
    seq![
        "represents the state where"@,
        "this variant"@,
        "enum variant"@,
        "represents a"@,
        "represents the"@,
        "simply wraps"@,
        "just describes"@,
    ]
}

/// The invariant only restates an enum's variants: an error or result type
/// whose description explains a variant, or an `Entity::Variant` state or
/// variant named with no transitions and at most one state.
pub open spec fn enum_variant_noise(inv: LlmInvariantV) -> bool {
    let entity = lowercase(inv.entity);
    let desc = lowercase(inv.description);
    let name = lowercase(inv.name);
    let is_error_type = seq_contains(entity, "error"@) || seq_contains(entity, "result"@);
    let is_variant_desc = any_contains(desc, variant_phrases());
    let is_single_variant_listing = seq_contains(name, "::"@) && (seq_ends_with(name, " state"@)
        || seq_ends_with(name, " variant"@)) && inv.transitions.len() == 0 && inv.states.len() <= 1
        && inv.state.len() == 0;
    (is_error_type && is_variant_desc) || is_single_variant_listing
}

/// Whether an invariant only describes enum variants or error types, which
/// the type system already enforces.
pub fn is_enum_variant_noise(inv: &LlmInvariant) -> (res: bool)
    ensures
        res == enum_variant_noise(inv@),
{
    let entity_l = to_lowercase(inv.entity.as_str());
    let desc_l = to_lowercase(inv.description.as_str());
    let name_l = to_lowercase(inv.name.as_str());
    let entity = to_chars(entity_l.as_str());
    let desc = to_chars(desc_l.as_str());
    let name = to_chars(name_l.as_str());
    let is_error_type = contains_str(entity.as_slice(), "error") || contains_str(
        entity.as_slice(),
        "result",
    );
    let phrases: Vec<&str> = vec![
        "represents the state where",
        "this variant",
        "enum variant",
        "represents a",
        "represents the",
        "simply wraps",
        "just describes",
    ];
    assert(str_views(phrases@) =~= variant_phrases());
    let is_variant_desc = contains_any(desc.as_slice(), &phrases);
    let is_single_variant_listing = contains_str(name.as_slice(), "::") && (ends_with_str(
        name.as_slice(),
        " state",
    ) || ends_with_str(name.as_slice(), " variant")) && inv.transitions.len() == 0
        && inv.states.len() <= 1 && inv.state.as_str().is_empty();
    (is_error_type && is_variant_desc) || is_single_variant_listing
}

// ---------------------------------------------------------------------------
// Line citations
// ---------------------------------------------------------------------------

/// A line citation in an evidence item, `line N: text`: the number `N`,
/// when it parses, and the cited text, trimmed.
pub open spec fn cited_line(ev: Seq<char>) -> Option<(nat, Seq<char>)> {
    if seq_starts_with(ev, "line "@) {
        let rest = ev.skip("line "@.len() as int);
        match seq_find(rest, seq![':']) {
            Some(c) => match parsed_uint(seq_trim(rest.take(c)), usize::MAX as nat) {
                Some(n) => Some((n, seq_trim(rest.skip(c + 1)))),
                None => None,
            },
            None => None,
        }
    } else {
        None
    }
}

/// A citation of line `n` (counted from 1) is borne out: the cited text is
/// not empty and occurs within five lines of line `n`, or anywhere in the
/// snippet when both are lowercased.
pub open spec fn citation_found(
    n: nat,
    cited: Seq<char>,
    lines: Seq<Seq<char>>,
    lower_snippet: Seq<char>,
) -> bool {
    let idx: int = if n >= 1 {
        n - 1
    } else {
        0
    };
    let start: int = if idx >= 5 {
        idx - 5
    } else {
        0
    };
    let end: int = if idx + 6 <= lines.len() {
        idx + 6
    } else {
        lines.len() as int
    };
    cited.len() > 0 && ((exists|i: int| start <= i < end && seq_contains(#[trigger] lines[i], cited))
        || seq_contains(lower_snippet, lowercase(cited)))
}

/// How many of the line citations among `evs` are borne out, and how many
/// there are.
pub open spec fn citation_tally(
    evs: Seq<Seq<char>>,
    lines: Seq<Seq<char>>,
    lower_snippet: Seq<char>,
) -> (nat, nat)
    decreases evs.len(),
{
    if evs.len() == 0 {
        (0, 0)
    } else {
        let before = citation_tally(evs.drop_last(), lines, lower_snippet);
        match cited_line(evs.last()) {
            Some(c) => (
                if citation_found(c.0, c.1, lines, lower_snippet) {
                    before.0 + 1
                } else {
                    before.0
                },
                before.1 + 1,
            ),
            None => before,
        }
    }
}

/// The citations of an evidence list that are borne out, of all its line
/// citations.
pub struct CitationTally {
    pub verified: usize,
    pub total: usize,
}

/// The citations are weak: there are some and fewer than three in ten of
/// them are borne out.
pub open spec fn citations_weak(verified: nat, total: nat) -> bool {
    total > 0 && 10 * verified < 3 * total
}

/// Whether one of `lines[start..end]` contains `cited`.
fn any_line_contains(lines: &Vec<Vec<char>>, start: usize, end: usize, cited: &[char]) -> (res: bool)
    requires
        end <= lines@.len(),
    ensures
        res == exists|i: int| start <= i < end && seq_contains(#[trigger] views(lines@)[i], cited@),
{
    let mut i = start;
    while i < end
        invariant
            start <= i,
            end <= lines@.len(),
            forall|k: int| start <= k < i ==> !seq_contains(#[trigger] views(lines@)[k], cited@),
        decreases end - i,
    {
        if contains(lines[i].as_slice(), cited) {
            assert(seq_contains(views(lines@)[i as int], cited@));
            return true;
        }
        i += 1;
    }
    false
}

/// The line citation of one evidence item, if it is one, and whether it is
/// borne out.
fn check_citation(ev: &str, lines: &Vec<Vec<char>>, lower: &[char]) -> (res: Option<bool>)
    ensures
        res == match cited_line(ev@) {
            Some(c) => Some(citation_found(c.0, c.1, views(lines@), lower@)),
            None => None,
        },
{
    let e = to_chars(ev);
    if !starts_with_str(e.as_slice(), "line ") {
        return None;
    }
    proof {
        reveal_strlit("line ");
    }
    let rest = slice_range(e.as_slice(), 5, e.len());
    assert(rest@ =~= ev@.skip("line "@.len() as int));
    let colon: Vec<char> = vec![':'];
    assert(colon@ =~= seq![':']);
    match find(rest.as_slice(), colon.as_slice()) {
        None => None,
        Some(c) => {
            proof {
                lemma_find_from(rest@, colon@, 0);
            }
            let rl = rest.len();
            assert(matches_at(rest@, colon@, c as int));
            let head = slice_range(rest.as_slice(), 0, c);
            assert(head@ =~= rest@.take(c as int));
            let num = trim(head.as_slice());
            match parse_usize(num.as_slice()) {
                None => None,
                Some(n) => {
                    let tail = slice_range(rest.as_slice(), c + 1, rl);
                    assert(tail@ =~= rest@.skip(c + 1));
                    let cited = trim(tail.as_slice());
                    if cited.len() == 0 {
                        return Some(false);
                    }
                    let idx: usize = if n >= 1 {
                        n - 1
                    } else {
                        0
                    };
                    let start: usize = if idx >= 5 {
                        idx - 5
                    } else {
                        0
                    };
                    let nl = lines.len();
                    let end: usize = if idx >= nl {
                        nl
                    } else if nl - idx < 6 {
                        nl
                    } else {
                        idx + 6
                    };
                    if any_line_contains(lines, start, end, cited.as_slice()) {
                        return Some(true);
                    }
                    let cs = from_chars(cited.as_slice());
                    let cl = to_lowercase(cs.as_str());
                    let clc = to_chars(cl.as_str());
                    Some(contains(lower, clc.as_slice()))
                },
            }
        },
    }
}

/// Checks the line citations (`line N: text`) of an evidence list against
/// the snippet they cite: how many there are, and how many are borne out
/// (the text occurs within five lines of line `N`, or anywhere in the
/// snippet, case aside).
pub fn verify_citations(evidence: &Vec<String>, snippet: &str) -> (res: CitationTally)
    ensures
        (res.verified as nat, res.total as nat) == citation_tally(
            views(evidence@),
            seq_lines(snippet@),
            lowercase(snippet@),
        ),
{
    let sc = to_chars(snippet);
    let lines = split_lines(sc.as_slice());
    assert(views(lines@) =~= seq_lines(snippet@));
    let lower_s = to_lowercase(snippet);
    let lower = to_chars(lower_s.as_str());
    let ghost evs = views(evidence@);
    let mut verified: usize = 0;
    let mut total: usize = 0;
    let mut k: usize = 0;
    assert(evs.take(0) =~= Seq::<Seq<char>>::empty());
    while k < evidence.len()
        invariant
            k <= evidence@.len(),
            evs == views(evidence@),
            views(lines@) == seq_lines(snippet@),
            lower@ == lowercase(snippet@),
            verified <= total <= k,
            (verified as nat, total as nat) == citation_tally(evs.take(k as int), seq_lines(snippet@), lower@),
        decreases evidence@.len() - k,
    {
        let r = check_citation(evidence[k].as_str(), &lines, lower.as_slice());
        proof {
            assert(evs.take(k + 1).drop_last() =~= evs.take(k as int));
            assert(evs.take(k + 1).last() == evidence@[k as int]@);
        }
        match r {
            Some(found) => {
                if found {
                    verified += 1;
                }
                total += 1;
            },
            None => {},
        }
        k += 1;
    }
    assert(evs.take(k as int) =~= evs);
    CitationTally { verified, total }
}

/// Adding a line citation whose non-empty text occurs in the snippet,
/// case aside, adds one citation and one borne out, whatever line number it
/// gives: the text may sit at another line than the model said.
pub proof fn law_citation_found_anywhere(evs: Seq<Seq<char>>, e: Seq<char>, snippet: Seq<char>)
    requires
        cited_line(e) is Some,
        (cited_line(e)->0).1.len() > 0,
        seq_contains(lowercase(snippet), lowercase((cited_line(e)->0).1)),
    ensures
        citation_tally(evs.push(e), seq_lines(snippet), lowercase(snippet)).0 == citation_tally(
            evs,
            seq_lines(snippet),
            lowercase(snippet),
        ).0 + 1,
        citation_tally(evs.push(e), seq_lines(snippet), lowercase(snippet)).1 == citation_tally(
            evs,
            seq_lines(snippet),
            lowercase(snippet),
        ).1 + 1,
{
    assert(evs.push(e).drop_last() =~= evs);
    assert(evs.push(e).last() == e);
}

/// Adding evidence that is no line citation changes no count; adding a line
/// citation adds one to the total and at most one to those borne out.
pub proof fn law_citation_counts(evs: Seq<Seq<char>>, e: Seq<char>, snippet: Seq<char>)
    ensures
        ({
            let before = citation_tally(evs, seq_lines(snippet), lowercase(snippet));
            let after = citation_tally(evs.push(e), seq_lines(snippet), lowercase(snippet));
            &&& cited_line(e) is None ==> after == before
            &&& cited_line(e) is Some ==> after.1 == before.1 + 1 && before.0 <= after.0 <= before.0 + 1
        }),
{
    assert(evs.push(e).drop_last() =~= evs);
    assert(evs.push(e).last() == e);
}

/// Adding a line citation whose non-empty text occurs, as written, on a line
/// of the snippet at most five lines from the line it names adds one
/// citation and one borne out.
pub proof fn law_citation_found_nearby(evs: Seq<Seq<char>>, e: Seq<char>, snippet: Seq<char>, j: int)
    requires
        cited_line(e) is Some,
        (cited_line(e)->0).1.len() > 0,
        0 <= j < seq_lines(snippet).len(),
        (if (cited_line(e)->0).0 >= 1 { (cited_line(e)->0).0 - 1 } else { 0 }) - 5 <= j <= (if (cited_line(e)->0).0 >= 1 {
            (cited_line(e)->0).0 - 1
        } else {
            0
        }) + 5,
        seq_contains(seq_lines(snippet)[j], (cited_line(e)->0).1),
    ensures
        citation_tally(evs.push(e), seq_lines(snippet), lowercase(snippet)).0 == citation_tally(
            evs,
            seq_lines(snippet),
            lowercase(snippet),
        ).0 + 1,
        citation_tally(evs.push(e), seq_lines(snippet), lowercase(snippet)).1 == citation_tally(
            evs,
            seq_lines(snippet),
            lowercase(snippet),
        ).1 + 1,
{
    assert(evs.push(e).drop_last() =~= evs);
    assert(evs.push(e).last() == e);
    let c = cited_line(e)->0;
    assert(citation_found(c.0, c.1, seq_lines(snippet), lowercase(snippet)));
}

} // verus!
