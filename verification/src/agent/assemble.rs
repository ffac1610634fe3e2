//! The report of an analysis run, assembled from the deduplicated findings
//! and, where the findings were checked, the outcome of each check.
use vstd::prelude::*;
use crate::detection::validation::{apply_validation, validated, ValidationResult};
use crate::dup::views;
use crate::report::types::{
    count_kind, counts_match, room_for_one, Confidence, Invariant, InvariantType, InvariantV, Report,
};

verus! {

/// What a check's outcome says: valid or not with a confidence, or the
/// error that stopped it.
pub open spec fn outcome_of(o: Result<ValidationResult, String>) -> Result<(bool, Confidence), Seq<char>> {
    match o {
        Ok(r) => Ok((r.valid, r.adjusted_confidence)),
        Err(e) => Err(e@),
    }
}

pub open spec fn outcomes_of(os: Seq<Result<ValidationResult, String>>) -> Seq<Result<(bool, Confidence), Seq<char>>> {
    os.map_values(|o: Result<ValidationResult, String>| outcome_of(o))
}

/// The findings after their checks, in order: each finding with the outcome
/// at its position (see `validated`).
pub open spec fn checked_findings(
    invs: Seq<InvariantV>,
    outs: Seq<Result<(bool, Confidence), Seq<char>>>,
) -> Seq<InvariantV>
    decreases invs.len(),
{
    if invs.len() == 0 {
        Seq::empty()
    } else {
        let rest = checked_findings(invs.drop_last(), outs);
        match validated(invs.last(), outs[invs.len() - 1]) {
            Some(v) => rest.push(v),
            None => rest,
        }
    }
}

/// Applies to each finding the outcome of its check: drops those found
/// invalid, gives the valid ones the confidence of the check, and keeps
/// those whose check failed.
pub fn check_findings(findings: Vec<Invariant>, outcomes: Vec<Result<ValidationResult, String>>) -> (res: Vec<Invariant>)
    requires
        outcomes@.len() == findings@.len(),
    ensures
        views(res@) == checked_findings(views(findings@), outcomes_of(outcomes@)),
{
    let ghost fs = views(findings@);
    let ghost os = outcomes_of(outcomes@);
    let ghost n = findings@.len();
    let mut findings = findings;
    let mut outcomes = outcomes;
    let mut out: Vec<Invariant> = Vec::new();
    let mut k: usize = 0;
    assert(findings@.len() == findings.len());
    proof {
        assert(fs.take(0) =~= Seq::<InvariantV>::empty());
        assert(fs.skip(0) =~= fs);
        assert(os.skip(0) =~= os);
    }
    while findings.len() > 0
        invariant
            n <= usize::MAX,
            k + findings@.len() == n,
            findings@.len() == outcomes@.len(),
            fs.len() == n,
            os.len() == n,
            views(findings@) == fs.skip(k as int),
            outcomes_of(outcomes@) == os.skip(k as int),
            views(out@) == checked_findings(fs.take(k as int), os),
        decreases findings@.len(),
    {
        let ghost fb = findings@;
        let ghost ob = outcomes@;
        let inv = findings.remove(0);
        let o = outcomes.remove(0);
        proof {
            assert(views(fb)[0] == fs.skip(k as int)[0]);
            assert(inv@ == fs[k as int]);
            assert(outcomes_of(ob)[0] == os.skip(k as int)[0]);
            assert(outcome_of(o) == os[k as int]);
            assert(findings@ =~= fb.skip(1));
            assert(outcomes@ =~= ob.skip(1));
            assert forall|j: int| 0 <= j < findings@.len() implies views(findings@)[j] == fs.skip(k + 1)[j] by {
                assert(findings@[j] == fb[j + 1]);
                assert(views(fb)[j + 1] == fs.skip(k as int)[j + 1]);
            }
            assert(views(findings@) =~= fs.skip(k + 1));
            assert forall|j: int| 0 <= j < outcomes@.len() implies outcomes_of(outcomes@)[j] == os.skip(k + 1)[j] by {
                assert(outcomes@[j] == ob[j + 1]);
                assert(outcomes_of(ob)[j + 1] == os.skip(k as int)[j + 1]);
            }
            assert(outcomes_of(outcomes@) =~= os.skip(k + 1));
            assert(fs.take(k + 1).drop_last() =~= fs.take(k as int));
            assert(fs.take(k + 1).last() == fs[k as int]);
        }
        match apply_validation(inv, o) {
            Some(kept) => {
                out.push(kept);
            },
            None => {},
        }
        proof {
            assert(views(out@) =~= checked_findings(fs.take(k + 1), os));
        }
        k += 1;
    }
    proof {
        assert(fs.take(n as int) =~= fs);
    }
    out
}

proof fn lemma_count_kind_le(invs: Seq<InvariantV>, t: InvariantType)
    ensures
        count_kind(invs, t) <= invs.len(),
    decreases invs.len(),
{
    if invs.len() > 0 {
        lemma_count_kind_le(invs.drop_last(), t);
    }
}

/// The report of a run: the modules analyzed, the files that could not be
/// parsed, and the deduplicated findings, after their checks where they
/// were checked, each counted under its kind.
pub fn assemble_report(
    modules_analyzed: usize,
    parse_failures: Vec<(String, String)>,
    findings: Vec<Invariant>,
    outcomes: Option<Vec<Result<ValidationResult, String>>>,
) -> (res: Report)
    requires
        outcomes matches Some(os) ==> os@.len() == findings@.len(),
    ensures
        views(res.invariants@) == match outcomes {
            Some(os) => checked_findings(views(findings@), outcomes_of(os@)),
            None => views(findings@),
        },
        counts_match(res.summary, views(res.invariants@)),
        res.summary.modules_analyzed == modules_analyzed,
        res.parse_failures@ == parse_failures@,
{
    let kept = match outcomes {
        Some(os) => check_findings(findings, os),
        None => findings,
    };
    let ghost ks = views(kept@);
    let mut report = Report::new();
    report.summary.modules_analyzed = modules_analyzed;
    report.parse_failures = parse_failures;
    let mut kept = kept;
    let mut k: usize = 0;
    let ghost n = kept@.len();
    assert(kept@.len() == kept.len());
    proof {
        assert(ks.take(0) =~= Seq::<InvariantV>::empty());
        assert(ks.skip(0) =~= ks);
    }
    while kept.len() > 0
        invariant
            n <= usize::MAX,
            k + kept@.len() == n,
            ks.len() == n,
            views(kept@) == ks.skip(k as int),
            views(report.invariants@) == ks.take(k as int),
            counts_match(report.summary, views(report.invariants@)),
            report.summary.modules_analyzed == modules_analyzed,
            report.parse_failures@ == parse_failures@,
        decreases kept@.len(),
    {
        let ghost kb = kept@;
        let inv = kept.remove(0);
        proof {
            assert(views(kb)[0] == ks.skip(k as int)[0]);
            assert(kept@ =~= kb.skip(1));
            let cur = views(report.invariants@);
            lemma_count_kind_le(cur, InvariantType::TemporalOrdering);
            lemma_count_kind_le(cur, InvariantType::ResourceLifecycle);
            lemma_count_kind_le(cur, InvariantType::StateMachine);
            lemma_count_kind_le(cur, InvariantType::Precondition);
            lemma_count_kind_le(cur, InvariantType::Protocol);
            assert(inv@ == ks[k as int]);
            assert forall|j: int| 0 <= j < kept@.len() implies views(kept@)[j] == ks.skip(k + 1)[j] by {
                assert(kept@[j] == kb[j + 1]);
                assert(views(kb)[j + 1] == ks.skip(k as int)[j + 1]);
            }
            assert(views(kept@) =~= ks.skip(k + 1));
            assert(room_for_one(report.summary));
        }
        report.add_invariant(inv);
        proof {
            assert(ks.take(k as int).push(ks[k as int]) =~= ks.take(k + 1));
        }
        k += 1;
    }
    proof {
        assert(ks.take(n as int) =~= ks);
    }
    report
}

} // verus!
