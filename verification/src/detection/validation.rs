//! Checking a claimed invariant with a second, skeptical request: the
//! prompt it sends and what its answer is read as.
use vstd::prelude::*;
use crate::detection::parsing::{confidence_named, extract_json_object, json_object_of, parse_confidence};
use crate::dup::opt_view;
use crate::navigation::priority::lowercase;
use crate::report::types::{confidence_text, Confidence, Invariant, InvariantType, InvariantV};
use crate::text::{
    byte_len, byte_len_at_most, from_chars, prefix_within, prefix_within_bytes, push_chars,
    push_str, to_chars,
};

verus! {



/// `snippet` cut to at most `max_chars` bytes, at the last character
/// boundary within them, with `...` after it; whole when it fits.
pub open spec fn truncated(snippet: Seq<char>, max_chars: nat) -> Seq<char> {
    if byte_len(snippet) <= max_chars {
        snippet
    } else {
        prefix_within(snippet, max_chars) + "..."@
    }
}

/// Cuts a snippet to at most `max_chars` bytes (at a character boundary)
/// and marks the cut with `...`.
pub fn truncate_snippet(snippet: &str, max_chars: usize) -> (res: String)
    ensures
        res@ == truncated(snippet@, max_chars as nat),
{
    let cs = to_chars(snippet);
    if byte_len_at_most(cs.as_slice(), max_chars) {
        String::from_str(snippet)
    } else {
        let head = prefix_within_bytes(cs.as_slice(), max_chars);
        let mut out = from_chars(head.as_slice());
        push_str(&mut out, "...");
        out
    }
}

/// The name of an invariant kind as `Debug` prints it.
pub open spec fn kind_debug(t: InvariantType) -> Seq<char> {
    match t {
        InvariantType::TemporalOrdering => "TemporalOrdering"@,
        InvariantType::ResourceLifecycle => "ResourceLifecycle"@,
        InvariantType::StateMachine => "StateMachine"@,
        InvariantType::Precondition => "Precondition"@,
        InvariantType::Protocol => "Protocol"@,
    }
}

/// The name of an invariant kind as `Debug` prints it.
pub fn kind_debug_name(t: InvariantType) -> (res: &'static str)
    ensures
        res@ == kind_debug(t),
{
    match t {
        InvariantType::TemporalOrdering => "TemporalOrdering",
        InvariantType::ResourceLifecycle => "ResourceLifecycle",
        InvariantType::StateMachine => "StateMachine",
        InvariantType::Precondition => "Precondition",
        InvariantType::Protocol => "Protocol",
    }
}

/// The prompt that asks for a check of a claimed invariant: its title,
/// entity, kind, description and confidence, its snippet cut to 2000 bytes,
/// and its explanation.
pub open spec fn validation_prompt_of(
    title: Seq<char>,
    entity: Seq<char>,
    kind: InvariantType,
    description: Seq<char>,
    confidence: Confidence,
    snippet: Seq<char>,
    explanation: Seq<char>,
) -> Seq<char> {
    "Review the following claimed invariant:\n\n**Title:** "@ + title + "\n**Entity:** "@ + entity + "\n**Type:** "@ + kind_debug(kind)
        + "\n**Description:** "@ + description + "\n**Confidence:** "@ + confidence_text(confidence)
        + "\n\n**Code snippet:**\n```rust\n"@ + truncated(snippet, 2000) + "\n```\n\n**Evidence/Explanation:**\n"@
        + explanation + "\n\nIs this invariant valid? Is it truly latent (runtime-enforced, not compile-time)? Is the confidence level appropriate?"@
}

/// What a check of an invariant concluded.
pub struct ValidationResult {
    pub valid: bool,
    pub reason: String,
    pub adjusted_confidence: Confidence,
}

/// The fields of a check's JSON answer, with the defaults of absent fields
/// filled in (`false`, the empty text, `medium`).
pub struct RawValidation {
    pub valid: bool,
    pub reason: String,
    pub adjusted_confidence: String,
}

/// Checks claimed invariants against their code with a second request.
pub struct InvariantValidator;

impl InvariantValidator {
    /// The user prompt that asks for a check of `inv`.
    pub fn user_prompt(inv: &Invariant) -> (res: String)
        ensures
            res@ == validation_prompt_of(
                inv.title@,
                inv.entity@,
                inv.invariant_type,
                inv.description@,
                inv.confidence,
                inv.evidence.code_snippet@,
                inv.evidence.explanation@,
            ),
    {
        let mut p = String::from_str("Review the following claimed invariant:\n\n**Title:** ");
        push_str(&mut p, inv.title.as_str());
        push_str(&mut p, "\n**Entity:** ");
        push_str(&mut p, inv.entity.as_str());
        push_str(&mut p, "\n**Type:** ");
        push_str(&mut p, kind_debug_name(inv.invariant_type));
        push_str(&mut p, "\n**Description:** ");
        push_str(&mut p, inv.description.as_str());
        push_str(&mut p, "\n**Confidence:** ");
        push_str(&mut p, inv.confidence_label());
        push_str(&mut p, "\n\n**Code snippet:**\n```rust\n");
        let cut = truncate_snippet(inv.evidence.code_snippet.as_str(), 2000);
        push_str(&mut p, cut.as_str());
        push_str(&mut p, "\n```\n\n**Evidence/Explanation:**\n");
        push_str(&mut p, inv.evidence.explanation.as_str());
        push_str(&mut p, "\n\nIs this invariant valid? Is it truly latent (runtime-enforced, not compile-time)? Is the confidence level appropriate?");
        p
    }

    /// The text of a check's answer to read as JSON: its JSON object, else
    /// the whole answer.
    pub fn answer_json(response: &str) -> (res: String)
        ensures
            res@ == match json_object_of(response@) {
                Some(o) => o,
                None => response@,
            },
    {
        match extract_json_object(response) {
            Some(o) => o,
            None => String::from_str(response),
        }
    }

    /// What a check concluded, from its answer's fields when they could be
    /// read, else valid with medium confidence.
    pub fn parse_validation_response(raw: Option<RawValidation>) -> (res: Result<ValidationResult, String>)
        ensures
            res matches Ok(r) && match raw {
                Some(v) => r.valid == v.valid && r.reason@ == v.reason@ && r.adjusted_confidence
                    == confidence_named(lowercase(v.adjusted_confidence@)),
                None => r.valid && r.reason@ == "Could not parse validation response"@
                    && r.adjusted_confidence == Confidence::Medium,
            },
    {
        match raw {
            Some(v) => {
                let c = parse_confidence(v.adjusted_confidence.as_str());
                Ok(ValidationResult { valid: v.valid, reason: v.reason, adjusted_confidence: c })
            },
            None => Ok(
                ValidationResult {
                    valid: true,
                    reason: String::from_str("Could not parse validation response"),
                    adjusted_confidence: Confidence::Medium,
                },
            ),
        }
    }
}

/// What a check does to a finding: a finding found invalid is dropped, a
/// valid one takes the confidence the check gave it, and one whose check
/// could not be made is kept as it was.
pub open spec fn validated(inv: InvariantV, outcome: Result<(bool, Confidence), Seq<char>>) -> Option<InvariantV> {
    match outcome {
        Ok((valid, c)) => if valid {
            Some(InvariantV { confidence: c, ..inv })
        } else {
            None
        },
        Err(_) => Some(inv),
    }
}

/// Applies the outcome of a check to a finding (see `validated`).
pub fn apply_validation(inv: Invariant, outcome: Result<ValidationResult, String>) -> (res: Option<Invariant>)
    ensures
        crate::dup::opt_view(res) == validated(
            inv@,
            match outcome {
                Ok(r) => Ok((r.valid, r.adjusted_confidence)),
                Err(e) => Err(e@),
            },
        ),
{
    match outcome {
        Ok(r) => {
            if r.valid {
                let mut inv = inv;
                inv.confidence = r.adjusted_confidence;
                Some(inv)
            } else {
                None
            }
        },
        Err(_) => Some(inv),
    }
}

} // verus!
