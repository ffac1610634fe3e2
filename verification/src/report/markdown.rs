//! The Markdown rendering of a report.
use vstd::prelude::*;
use crate::dup::views;
use crate::detection::evidence::concat_map;
use crate::report::types::{
    Confidence, Invariant, InvariantType, InvariantV, Report, Summary, confidence_text, count_kind,
};
use crate::text::{decimal, matches_at, push_str, seq_contains, usize_to_string};

verus! {

pub open spec fn summary_md(s: Summary) -> Seq<char> {
    "# Latent Invariant Analysis Report\n\n"@ + "## Summary\n\n"@
        + "- **Total invariants discovered**: "@ + decimal(s.total_invariants as nat) + "\n"@
        + "- **Temporal ordering**: "@ + decimal(s.temporal_ordering_count as nat) + "\n"@
        + "- **Resource lifecycle**: "@ + decimal(s.resource_lifecycle_count as nat) + "\n"@
        + "- **State machine**: "@ + decimal(s.state_machine_count as nat) + "\n"@
        + "- **Precondition**: "@ + decimal(s.precondition_count as nat) + "\n"@
        + "- **Protocol**: "@ + decimal(s.protocol_count as nat) + "\n"@
        + "- **Modules analyzed**: "@ + decimal(s.modules_analyzed as nat) + "\n\n"@
}

pub open spec fn invariant_head_md(inv: InvariantV) -> Seq<char> {
    "### "@ + decimal(inv.id as nat) + ". "@ + inv.title + "\n\n"@
        + "**Location**: `"@ + inv.location.file_path + ":"@ + decimal(inv.location.line_start as nat)
        + "-"@ + decimal(inv.location.line_end as nat) + "`\n\n"@
}

pub open spec fn invariant_body_md(inv: InvariantV) -> Seq<char> {
    "**Confidence**: "@ + confidence_text(inv.confidence) + "\n\n"@
        + "**Suggested Pattern**: "@ + inv.suggested_pattern + "\n\n"@
        + "**Description**: "@ + inv.description + "\n\n"@
}

pub open spec fn invariant_evidence_md(inv: InvariantV) -> Seq<char> {
    "**Evidence**:\n\n"@ + "```rust\n"@ + inv.evidence.code_snippet + "\n```\n\n"@
        + (if inv.evidence.explanation.len() > 0 { inv.evidence.explanation + "\n\n"@ } else { Seq::empty() })
        + "---\n\n"@
}

/// One invariant in the report: number, title, location, confidence,
/// suggested pattern, description, code snippet and explanation.
pub open spec fn invariant_md(inv: InvariantV) -> Seq<char> {
    invariant_head_md(inv) + invariant_body_md(inv) + invariant_evidence_md(inv)
}

pub open spec fn section_title(t: InvariantType) -> Seq<char> {
    match t {
        InvariantType::TemporalOrdering => "Temporal Ordering Invariants"@,
        InvariantType::ResourceLifecycle => "Resource Lifecycle Invariants"@,
        InvariantType::StateMachine => "State Machine Invariants"@,
        InvariantType::Precondition => "Precondition Invariants"@,
        InvariantType::Protocol => "Protocol Invariants"@,
    }
}

/// The section of the invariants of one kind, in report order; nothing when
/// there are none.
pub open spec fn section_md(invs: Seq<InvariantV>, t: InvariantType) -> Seq<char> {
    if count_kind(invs, t) > 0 {
        "## "@ + section_title(t) + "\n\n"@ + concat_map(
            invs,
            |x: InvariantV| if x.invariant_type == t { invariant_md(x) } else { Seq::empty() },
        )
    } else {
        Seq::empty()
    }
}

pub open spec fn failures_md(fs: Seq<(Seq<char>, Seq<char>)>) -> Seq<char> {
    if fs.len() > 0 {
        "## Skipped Files\n\n"@ + decimal(fs.len()) + " file(s) could not be parsed:\n\n"@
            + concat_map(fs, |f: (Seq<char>, Seq<char>)| "- `"@ + f.0 + "`: "@ + f.1 + "\n"@) + "\n"@
    } else {
        Seq::empty()
    }
}

/// The Markdown report: the summary counts, one section per kind of
/// invariant (temporal ordering, resource lifecycle, state machine,
/// precondition, protocol), and the files that could not be parsed.
pub open spec fn report_md(r: Report) -> Seq<char> {
    let invs = views(r.invariants@);
    summary_md(r.summary) + section_md(invs, InvariantType::TemporalOrdering) + section_md(
        invs,
        InvariantType::ResourceLifecycle,
    ) + section_md(invs, InvariantType::StateMachine) + section_md(invs, InvariantType::Precondition)
        + section_md(invs, InvariantType::Protocol) + failures_md(views(r.parse_failures@))
}

fn push_num(out: &mut String, n: usize)
    ensures
        final(out)@ == old(out)@ + decimal(n as nat),
{
    let s = usize_to_string(n);
    push_str(out, s.as_str());
}

fn format_head(out: &mut String, inv: &Invariant)
    ensures
        final(out)@ == old(out)@ + invariant_head_md(inv@),
{
    push_str(out, "### ");
    push_num(out, inv.id);
    push_str(out, ". ");
    push_str(out, inv.title.as_str());
    push_str(out, "\n\n");
    push_str(out, "**Location**: `");
    push_str(out, inv.location.file_path.as_str());
    push_str(out, ":");
    push_num(out, inv.location.line_start);
    push_str(out, "-");
    push_num(out, inv.location.line_end);
    push_str(out, "`\n\n");
    proof {
        assert(out@ =~= old(out)@ + invariant_head_md(inv@));
    }
}

fn format_body(out: &mut String, inv: &Invariant)
    ensures
        final(out)@ == old(out)@ + invariant_body_md(inv@),
{
    push_str(out, "**Confidence**: ");
    push_str(out, inv.confidence_label());
    push_str(out, "\n\n");
    push_str(out, "**Suggested Pattern**: ");
    push_str(out, inv.suggested_pattern.as_str());
    push_str(out, "\n\n");
    push_str(out, "**Description**: ");
    push_str(out, inv.description.as_str());
    push_str(out, "\n\n");
    proof {
        assert(out@ =~= old(out)@ + invariant_body_md(inv@));
    }
}

fn format_evidence(out: &mut String, inv: &Invariant)
    ensures
        final(out)@ == old(out)@ + invariant_evidence_md(inv@),
{
    push_str(out, "**Evidence**:\n\n");
    push_str(out, "```rust\n");
    push_str(out, inv.evidence.code_snippet.as_str());
    push_str(out, "\n```\n\n");
    let ghost mid = out@;
    if !inv.evidence.explanation.as_str().is_empty() {
        push_str(out, inv.evidence.explanation.as_str());
        push_str(out, "\n\n");
    } else {
        proof {
            assert(out@ =~= mid + Seq::<char>::empty());
        }
    }
    push_str(out, "---\n\n");
    proof {
        assert(out@ =~= old(out)@ + invariant_evidence_md(inv@));
    }
}

fn format_invariant(out: &mut String, inv: &Invariant)
    ensures
        final(out)@ == old(out)@ + invariant_md(inv@),
{
    format_head(out, inv);
    format_body(out, inv);
    format_evidence(out, inv);
    proof {
        assert(out@ =~= old(out)@ + invariant_md(inv@));
    }
}

fn title_of(t: InvariantType) -> (res: &'static str)
    ensures
        res@ == section_title(t),
{
    match t {
        InvariantType::TemporalOrdering => "Temporal Ordering Invariants",
        InvariantType::ResourceLifecycle => "Resource Lifecycle Invariants",
        InvariantType::StateMachine => "State Machine Invariants",
        InvariantType::Precondition => "Precondition Invariants",
        InvariantType::Protocol => "Protocol Invariants",
    }
}

proof fn lemma_count_kind_pos(invs: Seq<InvariantV>, t: InvariantType)
    ensures
        count_kind(invs, t) > 0 <==> exists|i: int| 0 <= i < invs.len() && invs[i].invariant_type == t,
    decreases invs.len(),
{
    if invs.len() > 0 {
        let p = invs.drop_last();
        lemma_count_kind_pos(p, t);
        if exists|i: int| 0 <= i < p.len() && p[i].invariant_type == t {
            let i = choose|i: int| 0 <= i < p.len() && p[i].invariant_type == t;
            assert(invs[i] == p[i]);
        }
        if exists|i: int| 0 <= i < invs.len() && invs[i].invariant_type == t {
            let i = choose|i: int| 0 <= i < invs.len() && invs[i].invariant_type == t;
            if i < p.len() {
                assert(invs[i] == p[i]);
            }
        }
    }
}

fn push_section(out: &mut String, invs: &Vec<Invariant>, t: InvariantType)
    ensures
        final(out)@ == old(out)@ + section_md(views(invs@), t),
{
    let ghost iv = views(invs@);
    let mut any = false;
    let mut i: usize = 0;
    while i < invs.len()
        invariant
            i <= invs@.len(),
            iv == views(invs@),
            any == exists|k: int| 0 <= k < i && iv[k].invariant_type == t,
        decreases invs@.len() - i,
    {
        if invs[i].invariant_type == t {
            assert(iv[i as int].invariant_type == t);
            any = true;
        }
        i += 1;
    }
    proof {
        lemma_count_kind_pos(iv, t);
    }
    if !any {
        proof {
            assert(out@ =~= old(out)@ + Seq::<char>::empty());
        }
        return;
    }
    push_str(out, "## ");
    push_str(out, title_of(t));
    push_str(out, "\n\n");
    let ghost base = out@;
    let ghost f = |x: InvariantV| if x.invariant_type == t { invariant_md(x) } else { Seq::<char>::empty() };
    let mut i: usize = 0;
    while i < invs.len()
        invariant
            i <= invs@.len(),
            iv == views(invs@),
            f == |x: InvariantV| if x.invariant_type == t { invariant_md(x) } else { Seq::<char>::empty() },
            out@ == base + concat_map(iv.take(i as int), f),
        decreases invs@.len() - i,
    {
        proof {
            assert(iv.take(i + 1).drop_last() =~= iv.take(i as int));
            assert(iv.take(i + 1).last() == invs@[i as int]@);
        }
        let ghost before = out@;
        if invs[i].invariant_type == t {
            format_invariant(out, &invs[i]);
        } else {
            proof {
                assert(out@ =~= before + Seq::<char>::empty());
            }
        }
        proof {
            assert(out@ =~= base + (concat_map(iv.take(i as int), f) + f(iv[i as int])));
        }
        i += 1;
    }
    proof {
        assert(iv.take(iv.len() as int) =~= iv);
        assert(out@ =~= old(out)@ + section_md(iv, t));
    }
}

/// Renders a report as Markdown: a title, the summary counts, one section
/// per kind of invariant with each invariant's location, confidence,
/// suggested pattern, description, code snippet and explanation, and a
/// section listing the files that could not be parsed.
pub fn generate_markdown(report: &Report) -> (res: Result<String, String>)
    ensures
        res matches Ok(s) && s@ == report_md(*report),
{
    let s = report.summary;
    let mut out = String::new();
    push_str(&mut out, "# Latent Invariant Analysis Report\n\n");
    push_str(&mut out, "## Summary\n\n");
    push_str(&mut out, "- **Total invariants discovered**: ");
    push_num(&mut out, s.total_invariants);
    push_str(&mut out, "\n");
    push_str(&mut out, "- **Temporal ordering**: ");
    push_num(&mut out, s.temporal_ordering_count);
    push_str(&mut out, "\n");
    push_str(&mut out, "- **Resource lifecycle**: ");
    push_num(&mut out, s.resource_lifecycle_count);
    push_str(&mut out, "\n");
    push_str(&mut out, "- **State machine**: ");
    push_num(&mut out, s.state_machine_count);
    push_str(&mut out, "\n");
    push_str(&mut out, "- **Precondition**: ");
    push_num(&mut out, s.precondition_count);
    push_str(&mut out, "\n");
    push_str(&mut out, "- **Protocol**: ");
    push_num(&mut out, s.protocol_count);
    push_str(&mut out, "\n");
    push_str(&mut out, "- **Modules analyzed**: ");
    push_num(&mut out, s.modules_analyzed);
    push_str(&mut out, "\n\n");
    proof {
        assert(out@ =~= summary_md(s));
    }
    push_section(&mut out, &report.invariants, InvariantType::TemporalOrdering);
    push_section(&mut out, &report.invariants, InvariantType::ResourceLifecycle);
    push_section(&mut out, &report.invariants, InvariantType::StateMachine);
    push_section(&mut out, &report.invariants, InvariantType::Precondition);
    push_section(&mut out, &report.invariants, InvariantType::Protocol);
    let ghost before_failures = out@;
    let fs = &report.parse_failures;
    if fs.len() > 0 {
        push_str(&mut out, "## Skipped Files\n\n");
        push_num(&mut out, fs.len());
        push_str(&mut out, " file(s) could not be parsed:\n\n");
        let ghost fv = views(fs@);
        let ghost base = out@;
        let ghost f = |p: (Seq<char>, Seq<char>)| "- `"@ + p.0 + "`: "@ + p.1 + "\n"@;
        let mut i: usize = 0;
        while i < fs.len()
            invariant
                i <= fs@.len(),
                fv == views(fs@),
                f == |p: (Seq<char>, Seq<char>)| "- `"@ + p.0 + "`: "@ + p.1 + "\n"@,
                out@ == base + concat_map(fv.take(i as int), f),
            decreases fs@.len() - i,
        {
            proof {
                assert(fv.take(i + 1).drop_last() =~= fv.take(i as int));
                assert(fv.take(i + 1).last() == fs@[i as int]@);
            }
            let ghost before = out@;
            push_str(&mut out, "- `");
            push_str(&mut out, fs[i].0.as_str());
            push_str(&mut out, "`: ");
            push_str(&mut out, fs[i].1.as_str());
            push_str(&mut out, "\n");
            proof {
                assert(out@ =~= base + (concat_map(fv.take(i as int), f) + f(fv[i as int])));
            }
            i += 1;
        }
        push_str(&mut out, "\n");
        proof {
            assert(fv.take(fv.len() as int) =~= fv);
            assert(out@ =~= before_failures + failures_md(fv));
        }
    } else {
        proof {
            assert(out@ =~= before_failures + failures_md(views(fs@)));
        }
    }
    proof {
        assert(out@ =~= report_md(*report));
    }
    Ok(out)
}

/// Some invariant is of kind `t`.
pub open spec fn has_kind(invs: Seq<InvariantV>, t: InvariantType) -> bool {
    exists|i: int| 0 <= i < invs.len() && (#[trigger] invs[i]).invariant_type == t
}

proof fn lemma_count_kind(invs: Seq<InvariantV>, t: InvariantType)
    ensures
        count_kind(invs, t) > 0 <==> has_kind(invs, t),
    decreases invs.len(),
{
    if invs.len() > 0 {
        let p = invs.drop_last();
        lemma_count_kind(p, t);
        if has_kind(p, t) {
            let i = choose|i: int| 0 <= i < p.len() && (#[trigger] p[i]).invariant_type == t;
            assert(invs[i] == p[i]);
        }
        if has_kind(invs, t) && invs.last().invariant_type != t {
            let i = choose|i: int| 0 <= i < invs.len() && (#[trigger] invs[i]).invariant_type == t;
            assert(p[i] == invs[i]);
        }
        if invs.last().invariant_type == t {
            assert(invs[invs.len() - 1].invariant_type == t);
        }
    }
}

/// The report's layout: it opens with its title and the summary, whose
/// first line is the total; then a section for each kind in the order
/// temporal ordering, resource lifecycle, state machine, precondition,
/// protocol, present exactly when some invariant is of that kind and
/// headed by its title; then the skipped files, present exactly when some
/// file could not be parsed.
pub proof fn law_report_layout(r: Report)
    ensures
        ({
            let invs = views(r.invariants@);
            let fs = views(r.parse_failures@);
            &&& report_md(r) == summary_md(r.summary) + section_md(invs, InvariantType::TemporalOrdering)
                + section_md(invs, InvariantType::ResourceLifecycle) + section_md(invs, InvariantType::StateMachine)
                + section_md(invs, InvariantType::Precondition) + section_md(invs, InvariantType::Protocol)
                + failures_md(fs)
            &&& ("# Latent Invariant Analysis Report\n\n## Summary\n\n- **Total invariants discovered**: "@
                + decimal(r.summary.total_invariants as nat) + "\n"@).is_prefix_of(summary_md(r.summary))
            &&& forall|t: InvariantType| #![trigger section_md(invs, t)] (section_md(invs, t).len() > 0 <==> has_kind(invs, t))
            &&& forall|t: InvariantType| #![trigger section_md(invs, t)] has_kind(invs, t) ==> ("## "@ + section_title(t) + "\n\n"@).is_prefix_of(section_md(invs, t))
            &&& (failures_md(fs).len() > 0 <==> fs.len() > 0)
            &&& fs.len() > 0 ==> "## Skipped Files\n\n"@.is_prefix_of(failures_md(fs))
        }),
{
    let invs = views(r.invariants@);
    let fs = views(r.parse_failures@);
    reveal_strlit("# Latent Invariant Analysis Report\n\n");
    reveal_strlit("## Summary\n\n");
    reveal_strlit("- **Total invariants discovered**: ");
    reveal_strlit("# Latent Invariant Analysis Report\n\n## Summary\n\n- **Total invariants discovered**: ");
    reveal_strlit("## ");
    reveal_strlit("## Skipped Files\n\n");
    let head = "# Latent Invariant Analysis Report\n\n## Summary\n\n- **Total invariants discovered**: "@
        + decimal(r.summary.total_invariants as nat) + "\n"@;
    assert(head =~= summary_md(r.summary).take(head.len() as int));
    assert forall|t: InvariantType| #![trigger section_md(invs, t)] (section_md(invs, t).len() > 0 <==> has_kind(invs, t)) by {
        lemma_count_kind(invs, t);
    }
    assert forall|t: InvariantType| #![trigger section_md(invs, t)] has_kind(invs, t) implies ("## "@ + section_title(t) + "\n\n"@).is_prefix_of(section_md(invs, t)) by {
        lemma_count_kind(invs, t);
        let h = "## "@ + section_title(t) + "\n\n"@;
        assert(h =~= section_md(invs, t).take(h.len() as int));
    }
    if fs.len() > 0 {
        let h = "## Skipped Files\n\n"@;
        assert(h =~= failures_md(fs).take(h.len() as int));
    }
}

/// The line that gives an invariant's place in the source: its file and its
/// first and last lines.
pub open spec fn location_line(inv: InvariantV) -> Seq<char> {
    "**Location**: `"@ + inv.location.file_path + ":"@ + decimal(inv.location.line_start as nat) + "-"@
        + decimal(inv.location.line_end as nat) + "`"@
}

proof fn lemma_contains_mid(a: Seq<char>, x: Seq<char>, b: Seq<char>)
    ensures
        seq_contains(a + x + b, x),
{
    let s = a + x + b;
    assert(s.subrange(a.len() as int, (a.len() + x.len()) as int) =~= x);
    assert(matches_at(s, x, a.len() as int));
}

proof fn lemma_contains_trans(s: Seq<char>, y: Seq<char>, z: Seq<char>)
    requires
        seq_contains(s, y),
        seq_contains(y, z),
    ensures
        seq_contains(s, z),
{
    let i = choose|i: int| matches_at(s, y, i);
    let j = choose|j: int| matches_at(y, z, j);
    assert forall|k: int| 0 <= k < z.len() implies s.subrange(i + j, i + j + z.len())[k] == z[k] by {
        assert(z[k] == y.subrange(j, j + z.len())[k]);
        assert(y[j + k] == s.subrange(i, i + y.len())[j + k]);
    }
    assert(s.subrange(i + j, i + j + z.len()) =~= z);
    assert(matches_at(s, z, i + j));
}

proof fn lemma_concat_map_contains<T>(s: Seq<T>, f: spec_fn(T) -> Seq<char>, k: int)
    requires
        0 <= k < s.len(),
    ensures
        seq_contains(concat_map(s, f), f(s[k])),
    decreases s.len(),
{
    let p = concat_map(s.drop_last(), f);
    if k == s.len() - 1 {
        lemma_contains_mid(p, f(s.last()), Seq::empty());
        assert(p + f(s.last()) + Seq::<char>::empty() =~= concat_map(s, f));
    } else {
        lemma_concat_map_contains(s.drop_last(), f, k);
        assert(s.drop_last()[k] == s[k]);
        lemma_contains_mid(Seq::empty(), p, f(s.last()));
        assert(Seq::<char>::empty() + p + f(s.last()) =~= concat_map(s, f));
        lemma_contains_trans(concat_map(s, f), p, f(s[k]));
    }
}

/// Each rendered invariant gives its place as `**Location**:` with its
/// file, its first line and its last line, in that order.
pub proof fn law_invariant_location(inv: InvariantV)
    ensures
        seq_contains(invariant_md(inv), "**Location**: `"@ + inv.location.file_path + ":"@ + decimal(
            inv.location.line_start as nat,
        ) + "-"@ + decimal(inv.location.line_end as nat) + "`"@),
{
    reveal_strlit("`\n\n");
    reveal_strlit("`");
    reveal_strlit("\n\n");
    let loc = location_line(inv);
    let pre = "### "@ + decimal(inv.id as nat) + ". "@ + inv.title + "\n\n"@;
    let post = "\n\n"@ + invariant_body_md(inv) + invariant_evidence_md(inv);
    assert("`\n\n"@ =~= "`"@ + "\n\n"@);
    assert(invariant_md(inv) =~= pre + loc + post);
    lemma_contains_mid(pre, loc, post);
}

/// The report gives, for every invariant it holds, the line with the
/// invariant's file, first line and last line.
pub proof fn law_report_locations(r: Report, i: int)
    requires
        0 <= i < r.invariants@.len(),
    ensures
        seq_contains(report_md(r), "**Location**: `"@ + r.invariants@[i]@.location.file_path + ":"@ + decimal(
            r.invariants@[i]@.location.line_start as nat,
        ) + "-"@ + decimal(r.invariants@[i]@.location.line_end as nat) + "`"@),
{
    let invs = views(r.invariants@);
    let inv = invs[i];
    assert(inv == r.invariants@[i]@);
    let t = inv.invariant_type;
    law_invariant_location(inv);
    let g = |x: InvariantV| if x.invariant_type == t { invariant_md(x) } else { Seq::empty() };
    lemma_concat_map_contains(invs, g, i);
    assert(g(invs[i]) == invariant_md(inv));
    lemma_contains_trans(concat_map(invs, g), invariant_md(inv), location_line(inv));
    lemma_count_kind(invs, t);
    assert(has_kind(invs, t));
    let sec = section_md(invs, t);
    let h = "## "@ + section_title(t) + "\n\n"@;
    assert(sec == h + concat_map(invs, g));
    lemma_contains_mid(h, concat_map(invs, g), Seq::empty());
    assert(h + concat_map(invs, g) + Seq::<char>::empty() =~= sec);
    lemma_contains_trans(sec, concat_map(invs, g), location_line(inv));
    let sm = summary_md(r.summary);
    let s1 = section_md(invs, InvariantType::TemporalOrdering);
    let s2 = section_md(invs, InvariantType::ResourceLifecycle);
    let s3 = section_md(invs, InvariantType::StateMachine);
    let s4 = section_md(invs, InvariantType::Precondition);
    let s5 = section_md(invs, InvariantType::Protocol);
    let fm = failures_md(views(r.parse_failures@));
    let whole = report_md(r);
    assert(whole == sm + s1 + s2 + s3 + s4 + s5 + fm);
    match t {
        InvariantType::TemporalOrdering => {
            assert(whole =~= sm + s1 + (s2 + s3 + s4 + s5 + fm));
            lemma_contains_mid(sm, s1, s2 + s3 + s4 + s5 + fm);
        },
        InvariantType::ResourceLifecycle => {
            assert(whole =~= (sm + s1) + s2 + (s3 + s4 + s5 + fm));
            lemma_contains_mid(sm + s1, s2, s3 + s4 + s5 + fm);
        },
        InvariantType::StateMachine => {
            assert(whole =~= (sm + s1 + s2) + s3 + (s4 + s5 + fm));
            lemma_contains_mid(sm + s1 + s2, s3, s4 + s5 + fm);
        },
        InvariantType::Precondition => {
            assert(whole =~= (sm + s1 + s2 + s3) + s4 + (s5 + fm));
            lemma_contains_mid(sm + s1 + s2 + s3, s4, s5 + fm);
        },
        InvariantType::Protocol => {
            assert(whole =~= (sm + s1 + s2 + s3 + s4) + s5 + fm);
            lemma_contains_mid(sm + s1 + s2 + s3 + s4, s5, fm);
        },
    }
    lemma_contains_trans(whole, sec, location_line(inv));
}

/// Each rendered invariant opens with its number and title, and gives its
/// confidence (`high`, `medium` or `low`), its suggested pattern, its
/// description and its code snippet in a Rust block.
pub proof fn law_invariant_fields(inv: InvariantV)
    ensures
        ("### "@ + decimal(inv.id as nat) + ". "@ + inv.title + "\n\n"@).is_prefix_of(invariant_md(inv)),
        seq_contains(invariant_md(inv), "**Confidence**: "@ + match inv.confidence {
            Confidence::High => "high"@,
            Confidence::Medium => "medium"@,
            Confidence::Low => "low"@,
        } + "\n\n"@),
        seq_contains(invariant_md(inv), "**Suggested Pattern**: "@ + inv.suggested_pattern + "\n\n"@),
        seq_contains(invariant_md(inv), "**Description**: "@ + inv.description + "\n\n"@),
        seq_contains(invariant_md(inv), "```rust\n"@ + inv.evidence.code_snippet + "\n```\n\n"@),
{
    let head = invariant_head_md(inv);
    let ev = invariant_evidence_md(inv);
    let t = "### "@ + decimal(inv.id as nat) + ". "@ + inv.title + "\n\n"@;
    let rest_head = "**Location**: `"@ + inv.location.file_path + ":"@ + decimal(inv.location.line_start as nat)
        + "-"@ + decimal(inv.location.line_end as nat) + "`\n\n"@;
    assert(invariant_md(inv) =~= t + (rest_head + invariant_body_md(inv) + ev));
    assert(t =~= invariant_md(inv).take(t.len() as int));
    let c = "**Confidence**: "@ + confidence_text(inv.confidence) + "\n\n"@;
    let sp = "**Suggested Pattern**: "@ + inv.suggested_pattern + "\n\n"@;
    let d = "**Description**: "@ + inv.description + "\n\n"@;
    assert(invariant_md(inv) =~= head + c + (sp + d + ev));
    lemma_contains_mid(head, c, sp + d + ev);
    assert(invariant_md(inv) =~= (head + c) + sp + (d + ev));
    lemma_contains_mid(head + c, sp, d + ev);
    assert(invariant_md(inv) =~= (head + c + sp) + d + ev);
    lemma_contains_mid(head + c + sp, d, ev);
    let code = "```rust\n"@ + inv.evidence.code_snippet + "\n```\n\n"@;
    let evrest = (if inv.evidence.explanation.len() > 0 { inv.evidence.explanation + "\n\n"@ } else { Seq::empty() })
        + "---\n\n"@;
    assert(invariant_md(inv) =~= (head + invariant_body_md(inv) + "**Evidence**:\n\n"@) + code + evrest);
    lemma_contains_mid(head + invariant_body_md(inv) + "**Evidence**:\n\n"@, code, evrest);
}

} // verus!
