//! The report of a translation run: per-program results and their
//! markdown summary. Times and idiomaticity scores, which are fractional,
//! come already written out.
use vstd::prelude::*;
use crate::detection::evidence::concat_map;
use crate::dup::views;
use crate::text::{decimal, join, push_str, seq_join, seq_lines, split_lines, from_chars, to_chars, usize_to_string};
use crate::translation::types::{DesignPatternMetrics, ProgramStatus, TestVectorResults};

verus! {

/// The result of one program's translation.
pub struct TranslationResult {
    pub program: String,
    pub collection: String,
    pub status: ProgramStatus,
    pub skip_reason: Option<String>,
    pub attempts: usize,
    pub test_vectors: Option<TestVectorResults>,
    pub design_patterns: Option<DesignPatternMetrics>,
    pub last_build_error: Option<String>,
    pub total_tokens: usize,
    /// The idiomaticity score with one decimal, or `-` without one
    pub idiom_text: String,
    /// The model's time in seconds with one decimal and `s`, or `-`
    pub llm_time_text: String,
}

/// The report of a translation run.
pub struct TranslationReport {
    pub total_programs: usize,
    pub success_count: usize,
    pub failed_count: usize,
    pub skipped_count: usize,
    pub run_dir: Option<String>,
    pub results: Vec<TranslationResult>,
}

impl TranslationReport {
    /// An empty report.
    pub fn new() -> (res: Self)
        ensures
            res.total_programs == 0 && res.success_count == 0 && res.failed_count == 0
                && res.skipped_count == 0,
            res.run_dir is None,
            res.results@.len() == 0,
    {
        TranslationReport {
            total_programs: 0,
            success_count: 0,
            failed_count: 0,
            skipped_count: 0,
            run_dir: None,
            results: Vec::new(),
        }
    }
}

impl Default for TranslationReport {
    fn default() -> (res: Self) {
        TranslationReport::new()
    }
}

/// The icon of a status.
pub open spec fn status_icon(s: ProgramStatus) -> Seq<char> {
    match s {
        ProgramStatus::Success => "✅"@,
        ProgramStatus::Failed => "❌"@,
        ProgramStatus::Skipped => "⏭️"@,
    }
}

fn status_icon_of(s: ProgramStatus) -> (res: &'static str)
    ensures
        res@ == status_icon(s),
{
    match s {
        ProgramStatus::Success => "✅",
        ProgramStatus::Failed => "❌",
        ProgramStatus::Skipped => "⏭️",
    }
}

/// The table row of a result.
pub open spec fn result_row(r: TranslationResult) -> Seq<char> {
    "| "@ + r.program@ + " | "@ + status_icon(r.status) + " | "@ + decimal(r.attempts as nat) + " | "@
        + match r.test_vectors {
        Some(t) => decimal(t.passed as nat) + "/"@ + decimal(t.total as nat),
        None => "-"@,
    } + " | "@ + r.idiom_text@ + " | "@ + if r.total_tokens > 0 {
        decimal(r.total_tokens as nat)
    } else {
        "-"@
    } + " | "@ + r.llm_time_text@ + " |\n"@
}

/// The collections of the results, each once, in the order they first
/// appear.
pub open spec fn collections_of(rs: Seq<TranslationResult>) -> Seq<Seq<char>>
    decreases rs.len(),
{
    if rs.len() == 0 {
        Seq::empty()
    } else {
        let before = collections_of(rs.drop_last());
        if before.contains(rs.last().collection@) {
            before
        } else {
            before.push(rs.last().collection@)
        }
    }
}

pub open spec fn in_collection(c: Seq<char>) -> spec_fn(TranslationResult) -> bool {
    |r: TranslationResult| r.collection@ == c
}

pub open spec fn row_of() -> spec_fn(TranslationResult) -> Seq<char> {
    |r: TranslationResult| result_row(r)
}

/// The heading of a collection's table.
pub open spec fn table_head() -> Seq<char> {
    "| Program | Status | Attempts | Tests | Idiomaticity | Tokens | LLM Time |\n|---------|--------|----------|-------|-------------|--------|----------|\n"@
}

/// The section of one collection: its heading, and a row per result of it.
pub open spec fn collection_section(rs: Seq<TranslationResult>, c: Seq<char>) -> Seq<char> {
    "## "@ + c + "\n\n"@ + table_head() + concat_map(rs.filter(in_collection(c)), row_of()) + "\n"@
}

pub open spec fn section_of(rs: Seq<TranslationResult>) -> spec_fn(Seq<char>) -> Seq<char> {
    |c: Seq<char>| collection_section(rs, c)
}

/// The first `n` lines of a text, joined by line breaks.
pub open spec fn first_lines(s: Seq<char>, n: nat) -> Seq<char> {
    let ls = seq_lines(s);
    seq_join(ls.take(if ls.len() < n { ls.len() as int } else { n as int }), "\n"@)
}

/// The details of a failed program: its reason, the first 30 lines of its
/// last build error, and its first five test failures.
pub open spec fn failure_detail(r: TranslationResult) -> Seq<char> {
    "### "@ + r.collection@ + "/"@ + r.program@ + "\n"@ + match r.skip_reason {
        Some(reason) => "**Reason:** "@ + reason@ + "\n\n"@,
        None => Seq::empty(),
    } + match r.last_build_error {
        Some(e) => "**Last Build Error:**\n```\n"@ + first_lines(e@, 30) + "\n```\n\n"@,
        None => Seq::empty(),
    } + match r.test_vectors {
        Some(t) => if t.failures@.len() > 0 {
            let fs = views(t.failures@);
            "**Test Failures:**\n```\n"@ + concat_map(
                fs.take(if fs.len() < 5 { fs.len() as int } else { 5 }),
                |f: Seq<char>| f + "\n"@,
            ) + "```\n\n"@
        } else {
            Seq::empty()
        },
        None => Seq::empty(),
    }
}

pub open spec fn has_status(s: ProgramStatus) -> spec_fn(TranslationResult) -> bool {
    |r: TranslationResult| r.status == s
}

pub open spec fn detail_of() -> spec_fn(TranslationResult) -> Seq<char> {
    |r: TranslationResult| failure_detail(r)
}

/// The row of a skipped program.
pub open spec fn skipped_row(r: TranslationResult) -> Seq<char> {
    "| "@ + r.program@ + " | "@ + r.collection@ + " | "@ + match r.skip_reason {
        Some(reason) => reason@,
        None => "Unknown"@,
    } + " |\n"@
}

pub open spec fn skipped_row_of() -> spec_fn(TranslationResult) -> Seq<char> {
    |r: TranslationResult| skipped_row(r)
}

/// The total tokens of the results.
pub open spec fn tokens_sum(rs: Seq<TranslationResult>) -> nat
    decreases rs.len(),
{
    if rs.len() == 0 {
        0
    } else {
        tokens_sum(rs.drop_last()) + rs.last().total_tokens as nat
    }
}

/// The markdown summary of a translation report: the counts (with the
/// success rate and the model's total time given as text), a table per
/// collection, the details of failed programs and the table of skipped
/// ones.
pub open spec fn report_markdown(
    total: nat,
    success: nat,
    failed: nat,
    skipped: nat,
    rs: Seq<TranslationResult>,
    rate_text: Seq<char>,
    time_text: Seq<char>,
) -> Seq<char> {
    let failed_rs = rs.filter(has_status(ProgramStatus::Failed));
    let skipped_rs = rs.filter(has_status(ProgramStatus::Skipped));
    "# Translation Report\n\n## Summary\n\n| Metric | Count |\n|--------|-------|\n"@
        + "| Total Programs | "@ + decimal(total) + " |\n"@ + "| ✅ Success | "@ + decimal(success)
        + " |\n"@ + "| ❌ Failed | "@ + decimal(failed) + " |\n"@ + "| ⏭️ Skipped | "@ + decimal(
        skipped,
    ) + " |\n"@ + "| Success Rate | "@ + rate_text + "% |\n"@ + "| Total LLM Tokens | "@
        + decimal(tokens_sum(rs)) + " |\n"@ + "| Total LLM Time | "@ + time_text + "s |\n\n"@
        + concat_map(collections_of(rs), section_of(rs)) + if failed_rs.len()
        > 0 {
        "## Failed Programs Details\n\n"@ + concat_map(failed_rs, detail_of())
    } else {
        Seq::empty()
    } + if skipped_rs.len() > 0 {
        "## Skipped Programs\n\n| Program | Collection | Reason |\n|---------|------------|--------|\n"@
            + concat_map(skipped_rs, skipped_row_of()) + "\n"@
    } else {
        Seq::empty()
    }
}

/// Which results a table takes: those of collection `c`, the failed
/// ones, or the skipped ones.
pub open spec fn keep_of(kind: u8, c: Seq<char>) -> spec_fn(TranslationResult) -> bool {
    if kind == 0 {
        in_collection(c)
    } else if kind == 1 {
        has_status(ProgramStatus::Failed)
    } else {
        has_status(ProgramStatus::Skipped)
    }
}

/// How a table renders a result.
pub open spec fn render_of(kind: u8) -> spec_fn(TranslationResult) -> Seq<char> {
    if kind == 0 {
        row_of()
    } else if kind == 1 {
        detail_of()
    } else {
        skipped_row_of()
    }
}

/// The rows of the results a table takes, each rendered.
fn rows_where(rs: &Vec<TranslationResult>, kind: u8, c: &str) -> (res: String)
    requires
        kind <= 2,
    ensures
        res@ == concat_map(rs@.filter(keep_of(kind, c@)), render_of(kind)),
{
    let ghost keep = keep_of(kind, c@);
    let ghost render = render_of(kind);
    let mut out = String::new();
    let mut i: usize = 0;
    while i < rs.len()
        invariant
            i <= rs@.len(),
            keep == keep_of(kind, c@),
            render == render_of(kind),
            kind <= 2,
            out@ == concat_map(rs@.take(i as int).filter(keep), render),
        decreases rs@.len() - i,
    {
        let r = &rs[i];
        proof {
            reveal(Seq::filter);
            assert(rs@.take(i + 1).drop_last() =~= rs@.take(i as int));
            assert(rs@.take(i + 1).last() == *r);
        }
        let take = if kind == 0 {
            crate::text::str_eq(r.collection.as_str(), c)
        } else if kind == 1 {
            r.status == ProgramStatus::Failed
        } else {
            r.status == ProgramStatus::Skipped
        };
        assert(take == keep(*r));
        if take {
            let piece = if kind == 0 {
                row_text(r)
            } else if kind == 1 {
                detail_text(r)
            } else {
                skipped_text(r)
            };
            assert(piece@ == render(*r));
            push_str(&mut out, piece.as_str());
            proof {
                let q = rs@.take(i + 1).filter(keep);
                assert(q == rs@.take(i as int).filter(keep).push(*r));
                assert(q.drop_last() =~= rs@.take(i as int).filter(keep));
            }
        }
        i += 1;
    }
    assert(rs@.take(rs@.len() as int) =~= rs@);
    out
}

fn section_text(rs: &Vec<TranslationResult>, c: &str) -> (res: String)
    ensures
        res@ == collection_section(rs@, c@),
{
    let mut s = String::from_str("## ");
    push_str(&mut s, c);
    push_str(&mut s, "\n\n");
    push_str(&mut s, "| Program | Status | Attempts | Tests | Idiomaticity | Tokens | LLM Time |\n|---------|--------|----------|-------|-------------|--------|----------|\n");
    let rows = rows_where(rs, 0, c);
    push_str(&mut s, rows.as_str());
    push_str(&mut s, "\n");
    s
}

fn row_text(r: &TranslationResult) -> (res: String)
    ensures
        res@ == result_row(*r),
{
    let mut s = String::from_str("| ");
    push_str(&mut s, r.program.as_str());
    push_str(&mut s, " | ");
    push_str(&mut s, status_icon_of(r.status));
    push_str(&mut s, " | ");
    push_str(&mut s, usize_to_string(r.attempts).as_str());
    push_str(&mut s, " | ");
    match &r.test_vectors {
        Some(t) => {
            push_str(&mut s, usize_to_string(t.passed).as_str());
            push_str(&mut s, "/");
            push_str(&mut s, usize_to_string(t.total).as_str());
        },
        None => {
            push_str(&mut s, "-");
        },
    }
    push_str(&mut s, " | ");
    push_str(&mut s, r.idiom_text.as_str());
    push_str(&mut s, " | ");
    if r.total_tokens > 0 {
        push_str(&mut s, usize_to_string(r.total_tokens).as_str());
    } else {
        push_str(&mut s, "-");
    }
    push_str(&mut s, " | ");
    push_str(&mut s, r.llm_time_text.as_str());
    push_str(&mut s, " |\n");
    s
}

/// The first `n` lines of a text.
fn first_lines_text(s: &str, n: usize) -> (res: String)
    ensures
        res@ == first_lines(s@, n as nat),
{
    let cs = to_chars(s);
    let ls = split_lines(cs.as_slice());
    let m = if ls.len() < n {
        ls.len()
    } else {
        n
    };
    let mut firsts: Vec<String> = Vec::new();
    let mut i: usize = 0;
    while i < m
        invariant
            i <= m <= ls@.len(),
            ls@.len() == seq_lines(s@).len(),
            forall|k: int| 0 <= k < ls@.len() ==> #[trigger] ls@[k]@ == seq_lines(s@)[k],
            views(firsts@) == seq_lines(s@).take(i as int),
        decreases m - i,
    {
        let line = from_chars(ls[i].as_slice());
        let ghost before = views(firsts@);
        let ghost lv = line@;
        firsts.push(line);
        assert(views(firsts@) =~= before.push(lv));
        assert(views(firsts@) =~= seq_lines(s@).take(i + 1));
        i += 1;
    }
    join(&firsts, "\n")
}

fn detail_text(r: &TranslationResult) -> (res: String)
    ensures
        res@ == failure_detail(*r),
{
    let mut s = String::from_str("### ");
    push_str(&mut s, r.collection.as_str());
    push_str(&mut s, "/");
    push_str(&mut s, r.program.as_str());
    push_str(&mut s, "\n");
    match &r.skip_reason {
        Some(reason) => {
            push_str(&mut s, "**Reason:** ");
            push_str(&mut s, reason.as_str());
            push_str(&mut s, "\n\n");
        },
        None => {},
    }
    match &r.last_build_error {
        Some(e) => {
            push_str(&mut s, "**Last Build Error:**\n```\n");
            push_str(&mut s, first_lines_text(e.as_str(), 30).as_str());
            push_str(&mut s, "\n```\n\n");
        },
        None => {},
    }
    match &r.test_vectors {
        Some(t) => {
            if t.failures.len() > 0 {
                push_str(&mut s, "**Test Failures:**\n```\n");
                let ghost fs = views(t.failures@);
                let m: usize = if t.failures.len() < 5 {
                    t.failures.len()
                } else {
                    5
                };
                let ghost start = s@;
                let mut i: usize = 0;
                while i < m
                    invariant
                        i <= m <= t.failures@.len(),
                        fs == views(t.failures@),
                        s@ == start + concat_map(fs.take(i as int), |f: Seq<char>| f + "\n"@),
                    decreases m - i,
                {
                    push_str(&mut s, t.failures[i].as_str());
                    push_str(&mut s, "\n");
                    proof {
                        assert(fs.take(i + 1).drop_last() =~= fs.take(i as int));
                        assert(fs.take(i + 1).last() == t.failures@[i as int]@);
                    }
                    i += 1;
                }
                push_str(&mut s, "```\n\n");
            }
        },
        None => {},
    }
    s
}

fn skipped_text(r: &TranslationResult) -> (res: String)
    ensures
        res@ == skipped_row(*r),
{
    let mut s = String::from_str("| ");
    push_str(&mut s, r.program.as_str());
    push_str(&mut s, " | ");
    push_str(&mut s, r.collection.as_str());
    push_str(&mut s, " | ");
    match &r.skip_reason {
        Some(reason) => {
            push_str(&mut s, reason.as_str());
        },
        None => {
            push_str(&mut s, "Unknown");
        },
    }
    push_str(&mut s, " |\n");
    s
}

/// The collections of the results, each once, in order of appearance.
fn collections_exec(rs: &Vec<TranslationResult>) -> (res: Vec<String>)
    ensures
        views(res@) == collections_of(rs@),
{
    let mut out: Vec<String> = Vec::new();
    let mut i: usize = 0;
    assert(rs@.take(0) =~= Seq::<TranslationResult>::empty());
    while i < rs.len()
        invariant
            i <= rs@.len(),
            views(out@) == collections_of(rs@.take(i as int)),
        decreases rs@.len() - i,
    {
        proof {
            assert(rs@.take(i + 1).drop_last() =~= rs@.take(i as int));
            assert(rs@.take(i + 1).last() == rs@[i as int]);
        }
        if !crate::text::contains_string(&out, rs[i].collection.as_str()) {
            let ghost before = views(out@);
            out.push(rs[i].collection.clone());
            assert(views(out@) =~= before.push(rs@[i as int].collection@));
        }
        i += 1;
    }
    assert(rs@.take(i as int) =~= rs@);
    out
}

impl TranslationReport {
    /// The tokens of all results, when their sum fits.
    pub open spec fn tokens_fit(&self) -> bool {
        tokens_sum(self.results@) <= usize::MAX
    }

    /// The markdown summary of the report, with the success rate (percent,
    /// one decimal) and the model's total time (seconds, one decimal)
    /// written out by the caller.
    pub fn to_markdown(&self, rate_text: &str, time_text: &str) -> (res: String)
        requires
            self.tokens_fit(),
        ensures
            res@ == report_markdown(
                self.total_programs as nat,
                self.success_count as nat,
                self.failed_count as nat,
                self.skipped_count as nat,
                self.results@,
                rate_text@,
                time_text@,
            ),
    {
        let rs = &self.results;
        let mut md = String::from_str("# Translation Report\n\n## Summary\n\n| Metric | Count |\n|--------|-------|\n");
        push_str(&mut md, "| Total Programs | ");
        push_str(&mut md, usize_to_string(self.total_programs).as_str());
        push_str(&mut md, " |\n");
        push_str(&mut md, "| ✅ Success | ");
        push_str(&mut md, usize_to_string(self.success_count).as_str());
        push_str(&mut md, " |\n");
        push_str(&mut md, "| ❌ Failed | ");
        push_str(&mut md, usize_to_string(self.failed_count).as_str());
        push_str(&mut md, " |\n");
        push_str(&mut md, "| ⏭️ Skipped | ");
        push_str(&mut md, usize_to_string(self.skipped_count).as_str());
        push_str(&mut md, " |\n");
        push_str(&mut md, "| Success Rate | ");
        push_str(&mut md, rate_text);
        push_str(&mut md, "% |\n");
        let mut tokens: usize = 0;
        let mut i: usize = 0;
        while i < rs.len()
            invariant
                i <= rs@.len(),
                tokens_sum(rs@) <= usize::MAX,
                tokens as nat == tokens_sum(rs@.take(i as int)),
            decreases rs@.len() - i,
        {
            proof {
                assert(rs@.take(i + 1).drop_last() =~= rs@.take(i as int));
                lemma_tokens_prefix(rs@, i as int + 1);
            }
            tokens = tokens + rs[i].total_tokens;
            i += 1;
        }
        assert(rs@.take(i as int) =~= rs@);
        push_str(&mut md, "| Total LLM Tokens | ");
        push_str(&mut md, usize_to_string(tokens).as_str());
        push_str(&mut md, " |\n");
        push_str(&mut md, "| Total LLM Time | ");
        push_str(&mut md, time_text);
        push_str(&mut md, "s |\n\n");
        let cols = collections_exec(rs);
        let ghost cs = views(cols@);
        let ghost start = md@;
        let mut k: usize = 0;
        while k < cols.len()
            invariant
                k <= cols@.len(),
                cs == views(cols@),
                md@ == start + concat_map(cs.take(k as int), section_of(rs@)),
            decreases cols@.len() - k,
        {
            let section = section_text(rs, cols[k].as_str());
            push_str(&mut md, section.as_str());
            proof {
                assert(cs.take(k + 1).drop_last() =~= cs.take(k as int));
                assert(cs.take(k + 1).last() == cols@[k as int]@);
                assert(md@ =~= start + (concat_map(cs.take(k as int), section_of(rs@)) + section_of(rs@)(cols@[k as int]@)));
            }
            k += 1;
        }
        assert(cs.take(k as int) =~= cs);
        let failed = rows_where(rs, 1, "");
        let nf = count_status(rs, ProgramStatus::Failed);
        if nf > 0 {
            push_str(&mut md, "## Failed Programs Details\n\n");
            push_str(&mut md, failed.as_str());
        }
        let ns = count_status(rs, ProgramStatus::Skipped);
        if ns > 0 {
            push_str(&mut md, "## Skipped Programs\n\n| Program | Collection | Reason |\n|---------|------------|--------|\n");
            let skipped = rows_where(rs, 2, "");
            push_str(&mut md, skipped.as_str());
            push_str(&mut md, "\n");
        }
        md
    }
}

/// The number of results with the given status.
fn count_status(rs: &Vec<TranslationResult>, s: ProgramStatus) -> (res: usize)
    ensures
        res == rs@.filter(has_status(s)).len(),
{
    let mut n: usize = 0;
    let mut i: usize = 0;
    while i < rs.len()
        invariant
            i <= rs@.len(),
            n == rs@.take(i as int).filter(has_status(s)).len(),
            n <= i,
        decreases rs@.len() - i,
    {
        proof {
            reveal(Seq::filter);
            assert(rs@.take(i + 1).drop_last() =~= rs@.take(i as int));
            assert(rs@.take(i + 1).last() == rs@[i as int]);
        }
        if rs[i].status == s {
            n += 1;
        }
        i += 1;
    }
    assert(rs@.take(i as int) =~= rs@);
    n
}

proof fn lemma_tokens_prefix(rs: Seq<TranslationResult>, i: int)
    requires
        0 <= i <= rs.len(),
    ensures
        tokens_sum(rs.take(i)) <= tokens_sum(rs),
    decreases rs.len() - i,
{
    if i < rs.len() {
        lemma_tokens_prefix(rs, i + 1);
        assert(rs.take(i + 1).drop_last() =~= rs.take(i));
    } else {
        assert(rs.take(i) =~= rs);
    }
}

} // verus!
