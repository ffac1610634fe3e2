//! Discovered invariants and the report that collects them.
use vstd::prelude::*;
use crate::dup::{Dup, views, dup_vec};

verus! {

/// The kind of a latent invariant.
#[derive(Debug, Clone, Copy, PartialEq, Eq, Structural)]
pub enum InvariantType {
    TemporalOrdering,
    ResourceLifecycle,
    StateMachine,
    Precondition,
    Protocol,
}

/// How sure the analysis is of an invariant.
#[derive(Debug, Clone, Copy, PartialEq, Eq, Structural)]
pub enum Confidence {
    High,
    Medium,
    Low,
}

#[derive(Debug, Clone)]
pub struct Location {
    pub file_path: String,
    pub line_start: usize,
    pub line_end: usize,
}

pub struct LocationV {
    pub file_path: Seq<char>,
    pub line_start: usize,
    pub line_end: usize,
}

impl View for Location {
    type V = LocationV;

    open spec fn view(&self) -> LocationV {
        LocationV { file_path: self.file_path@, line_start: self.line_start, line_end: self.line_end }
    }
}

#[derive(Debug, Clone)]
pub struct Evidence {
    pub code_snippet: String,
    pub explanation: String,
}

pub struct EvidenceV {
    pub code_snippet: Seq<char>,
    pub explanation: Seq<char>,
}

impl View for Evidence {
    type V = EvidenceV;

    open spec fn view(&self) -> EvidenceV {
        EvidenceV { code_snippet: self.code_snippet@, explanation: self.explanation@ }
    }
}

/// A latent invariant found in the code.
#[derive(Debug, Clone)]
pub struct Invariant {
    pub id: usize,
    pub invariant_type: InvariantType,
    pub title: String,
    pub description: String,
    pub location: Location,
    pub evidence: Evidence,
    pub suggested_pattern: String,
    pub confidence: Confidence,
    /// The type the invariant applies to
    pub entity: String,
}

pub struct InvariantV {
    pub id: usize,
    pub invariant_type: InvariantType,
    pub title: Seq<char>,
    pub description: Seq<char>,
    pub location: LocationV,
    pub evidence: EvidenceV,
    pub suggested_pattern: Seq<char>,
    pub confidence: Confidence,
    pub entity: Seq<char>,
}

impl View for Invariant {
    type V = InvariantV;

    open spec fn view(&self) -> InvariantV {
        InvariantV {
            id: self.id,
            invariant_type: self.invariant_type,
            title: self.title@,
            description: self.description@,
            location: self.location@,
            evidence: self.evidence@,
            suggested_pattern: self.suggested_pattern@,
            confidence: self.confidence,
            entity: self.entity@,
        }
    }
}

impl Dup for Invariant {
    fn dup(&self) -> (res: Self) {
        Invariant {
            id: self.id,
            invariant_type: self.invariant_type,
            title: self.title.clone(),
            description: self.description.clone(),
            location: Location {
                file_path: self.location.file_path.clone(),
                line_start: self.location.line_start,
                line_end: self.location.line_end,
            },
            evidence: Evidence {
                code_snippet: self.evidence.code_snippet.clone(),
                explanation: self.evidence.explanation.clone(),
            },
            suggested_pattern: self.suggested_pattern.clone(),
            confidence: self.confidence,
            entity: self.entity.clone(),
        }
    }
}

pub open spec fn confidence_text(c: Confidence) -> Seq<char> {
    match c {
        Confidence::High => "high"@,
        Confidence::Medium => "medium"@,
        Confidence::Low => "low"@,
    }
}

impl Invariant {
    /// The confidence as a word: `high`, `medium` or `low`.
    pub fn confidence_label(&self) -> (res: &'static str)
        ensures
            res@ == confidence_text(self.confidence),
    {
        match self.confidence {
            Confidence::High => "high",
            Confidence::Medium => "medium",
            Confidence::Low => "low",
        }
    }
}

/// Counts of the invariants of a report, by kind.
#[derive(Debug, Clone, Copy, PartialEq, Eq, Structural)]
pub struct Summary {
    pub total_invariants: usize,
    pub temporal_ordering_count: usize,
    pub resource_lifecycle_count: usize,
    pub state_machine_count: usize,
    pub precondition_count: usize,
    pub protocol_count: usize,
    pub modules_analyzed: usize,
}

/// The findings of an analysis: the invariants with their counts, and the
/// files that could not be parsed (path and error).
#[derive(Debug, Clone)]
pub struct Report {
    pub summary: Summary,
    pub invariants: Vec<Invariant>,
    pub parse_failures: Vec<(String, String)>,
}

/// The number of invariants of the given kind.
pub open spec fn count_kind(invs: Seq<InvariantV>, t: InvariantType) -> nat
    decreases invs.len(),
{
    if invs.len() == 0 {
        0
    } else {
        count_kind(invs.drop_last(), t) + (if invs.last().invariant_type == t { 1nat } else { 0nat })
    }
}

/// The summary counts agree with the invariants held, when nothing was
/// added to the counts but through `add_invariant`.
pub open spec fn counts_match(s: Summary, invs: Seq<InvariantV>) -> bool {
    &&& s.total_invariants == invs.len()
    &&& s.temporal_ordering_count == count_kind(invs, InvariantType::TemporalOrdering)
    &&& s.resource_lifecycle_count == count_kind(invs, InvariantType::ResourceLifecycle)
    &&& s.state_machine_count == count_kind(invs, InvariantType::StateMachine)
    &&& s.precondition_count == count_kind(invs, InvariantType::Precondition)
    &&& s.protocol_count == count_kind(invs, InvariantType::Protocol)
}

/// The summary after one more invariant of kind `t`.
pub open spec fn counted(s: Summary, t: InvariantType) -> Summary {
    Summary {
        total_invariants: (s.total_invariants + 1) as usize,
        temporal_ordering_count: (s.temporal_ordering_count + (if t == InvariantType::TemporalOrdering { 1int } else { 0int })) as usize,
        resource_lifecycle_count: (s.resource_lifecycle_count + (if t == InvariantType::ResourceLifecycle { 1int } else { 0int })) as usize,
        state_machine_count: (s.state_machine_count + (if t == InvariantType::StateMachine { 1int } else { 0int })) as usize,
        precondition_count: (s.precondition_count + (if t == InvariantType::Precondition { 1int } else { 0int })) as usize,
        protocol_count: (s.protocol_count + (if t == InvariantType::Protocol { 1int } else { 0int })) as usize,
        modules_analyzed: s.modules_analyzed,
    }
}

/// No count of the summary is at its maximum, so one more can be added.
pub open spec fn room_for_one(s: Summary) -> bool {
    &&& s.total_invariants < usize::MAX
    &&& s.temporal_ordering_count < usize::MAX
    &&& s.resource_lifecycle_count < usize::MAX
    &&& s.state_machine_count < usize::MAX
    &&& s.precondition_count < usize::MAX
    &&& s.protocol_count < usize::MAX
}

impl Report {
    /// An empty report.
    pub fn new() -> (res: Self)
        ensures
            res.summary == (Summary {
                total_invariants: 0,
                temporal_ordering_count: 0,
                resource_lifecycle_count: 0,
                state_machine_count: 0,
                precondition_count: 0,
                protocol_count: 0,
                modules_analyzed: 0,
            }),
            res.invariants@.len() == 0,
            res.parse_failures@.len() == 0,
            counts_match(res.summary, views(res.invariants@)),
    {
        Report {
            summary: Summary {
                total_invariants: 0,
                temporal_ordering_count: 0,
                resource_lifecycle_count: 0,
                state_machine_count: 0,
                precondition_count: 0,
                protocol_count: 0,
                modules_analyzed: 0,
            },
            invariants: Vec::new(),
            parse_failures: Vec::new(),
        }
    }

    /// Adds an invariant, counting it in the total and under its kind.
    pub fn add_invariant(&mut self, inv: Invariant)
        requires
            room_for_one(old(self).summary),
        ensures
            final(self).summary == counted(old(self).summary, inv.invariant_type),
            views(final(self).invariants@) == views(old(self).invariants@).push(inv@),
            final(self).parse_failures@ == old(self).parse_failures@,
            counts_match(old(self).summary, views(old(self).invariants@)) ==> counts_match(
                final(self).summary,
                views(final(self).invariants@),
            ),
    {
        proof {
            if counts_match(self.summary, views(self.invariants@)) {
                law_add_invariant_counts(self.summary, views(self.invariants@), inv@);
            }
        }
        match inv.invariant_type {
            InvariantType::TemporalOrdering => self.summary.temporal_ordering_count += 1,
            InvariantType::ResourceLifecycle => self.summary.resource_lifecycle_count += 1,
            InvariantType::StateMachine => self.summary.state_machine_count += 1,
            InvariantType::Precondition => self.summary.precondition_count += 1,
            InvariantType::Protocol => self.summary.protocol_count += 1,
        }
        self.summary.total_invariants += 1;
        let ghost before = views(self.invariants@);
        self.invariants.push(inv);
        proof {
            assert(views(self.invariants@) =~= before.push(inv@));
        }
    }
}

impl Default for Report {
    fn default() -> (res: Self)
        ensures
            res.summary.total_invariants == 0,
            res.invariants@.len() == 0,
            res.parse_failures@.len() == 0,
    {
        Report::new()
    }
}

/// Adding invariants one by one to an empty report keeps its counts equal
/// to the number of invariants of each kind it holds.
pub proof fn law_add_invariant_counts(s: Summary, invs: Seq<InvariantV>, x: InvariantV)
    requires
        counts_match(s, invs),
        room_for_one(s),
    ensures
        counts_match(counted(s, x.invariant_type), invs.push(x)),
{
    assert(invs.push(x).drop_last() =~= invs);
}

} // verus!
