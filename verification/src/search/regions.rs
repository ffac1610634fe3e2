//! Merging the line ranges that search hits cover in one file, each padded
//! with context lines, into regions.
use vstd::prelude::*;

verus! {

/// A region of a file: lines `line_start..=line_end`, made of the hits
/// `first..=last` (by their index in the list of hits).
#[derive(Debug, Clone, Copy, PartialEq, Eq, Structural)]
pub struct MergedRegion {
    pub line_start: usize,
    pub line_end: usize,
    pub first: usize,
    pub last: usize,
}

/// `a - b`, or 0 when `b` is larger.
pub open spec fn sub_floor(a: int, b: int) -> int {
    if a >= b {
        a - b
    } else {
        0
    }
}

/// The regions of hits `(line_start, line_end)`, taken in order: each hit,
/// padded by `ctx` lines, joins the last region when it starts at most one
/// line after that region's end, and else starts a new region (from line 1
/// at the earliest).
pub open spec fn regions_of(hits: Seq<(usize, usize)>, ctx: usize) -> Seq<MergedRegion>
    decreases hits.len(),
{
    if hits.len() == 0 {
        Seq::empty()
    } else {
        let before = regions_of(hits.drop_last(), ctx);
        let h = hits.last();
        let i = hits.len() - 1;
        let ps = sub_floor(h.0 as int, ctx as int);
        let pe = h.1 + ctx;
        if before.len() > 0 && ps <= before.last().line_end + 1 {
            let l = before.last();
            before.update(
                before.len() - 1,
                MergedRegion {
                    line_start: l.line_start,
                    line_end: if l.line_end >= pe {
                        l.line_end
                    } else {
                        pe as usize
                    },
                    first: l.first,
                    last: i as usize,
                },
            )
        } else {
            before.push(
                MergedRegion {
                    line_start: if ps >= 1 {
                        ps as usize
                    } else {
                        1
                    },
                    line_end: pe as usize,
                    first: i as usize,
                    last: i as usize,
                },
            )
        }
    }
}

/// The padded ends of the hits, and the ends of the regions made of them,
/// stay below `usize::MAX`.
pub open spec fn padding_fits(hits: Seq<(usize, usize)>, ctx: usize) -> bool {
    forall|k: int| 0 <= k < hits.len() ==> #[trigger] hits[k].1 + ctx < usize::MAX
}

proof fn lemma_regions_bounded(hits: Seq<(usize, usize)>, ctx: usize)
    requires
        padding_fits(hits, ctx),
    ensures
        forall|k: int| 0 <= k < regions_of(hits, ctx).len() ==> #[trigger] regions_of(hits, ctx)[k].line_end < usize::MAX,
        regions_of(hits, ctx).len() <= hits.len(),
    decreases hits.len(),
{
    if hits.len() > 0 {
        let d = hits.drop_last();
        assert forall|k: int| 0 <= k < d.len() implies #[trigger] d[k].1 + ctx < usize::MAX by {
            assert(d[k] == hits[k]);
        }
        lemma_regions_bounded(d, ctx);
        assert(hits[hits.len() - 1].1 + ctx < usize::MAX);
    }
}

/// The regions of a file neither overlap nor touch: each ends more than
/// one line before the next begins. They take the hits in order, each hit
/// in exactly one region: the first region starts with the first hit, each
/// next region with the hit after the last of the one before, and the last
/// region ends with the last hit.
pub proof fn law_regions_separated(hits: Seq<(usize, usize)>, ctx: usize)
    requires
        hits.len() <= usize::MAX,
    ensures
        ({
            let rs = regions_of(hits, ctx);
            &&& forall|i: int| 0 <= i < rs.len() - 1 ==> #[trigger] rs[i].line_end + 1 < rs[i + 1].line_start
            &&& forall|i: int| 0 <= i < rs.len() - 1 ==> #[trigger] rs[i].last + 1 == rs[i + 1].first
            &&& forall|i: int| 0 <= i < rs.len() ==> #[trigger] rs[i].first <= rs[i].last
            &&& hits.len() == 0 <==> rs.len() == 0
            &&& rs.len() > 0 ==> rs[0].first == 0 && rs.last().last == hits.len() - 1
        }),
    decreases hits.len(),
{
    if hits.len() > 0 {
        law_regions_separated(hits.drop_last(), ctx);
        let before = regions_of(hits.drop_last(), ctx);
        let rs = regions_of(hits, ctx);
        let k = hits.len() - 1;
        assert(k as usize == k);
        assert forall|i: int| 0 <= i < rs.len() - 1 implies #[trigger] rs[i].line_end + 1 < rs[i + 1].line_start by {
            if i + 1 < before.len() {
                assert(rs[i] == before[i]);
            }
        }
        assert forall|i: int| 0 <= i < rs.len() - 1 implies #[trigger] rs[i].last + 1 == rs[i + 1].first by {
            if i + 1 < before.len() {
                assert(rs[i] == before[i]);
            }
        }
        assert forall|i: int| 0 <= i < rs.len() implies #[trigger] rs[i].first <= rs[i].last by {
            if i < before.len() - 1 {
                assert(rs[i] == before[i]);
            }
        }
    }
}

/// Every hit lies inside the region that takes it, padded by the context
/// lines: a region starts no later than any of its hits less the context
/// (and never before line 1), and ends no earlier than any of its hits plus
/// the context. A region starts at its first hit less the context (line 1
/// at the earliest) and ends at the furthest padded end of its hits. The
/// hits are taken sorted by their start.
#[verifier::rlimit(60)]
pub proof fn law_regions_cover_hits(hits: Seq<(usize, usize)>, ctx: usize)
    requires
        hits.len() <= usize::MAX,
        padding_fits(hits, ctx),
        forall|i: int, j: int| 0 <= i <= j < hits.len() ==> (#[trigger] hits[i]).0 <= (#[trigger] hits[j]).0,
    ensures
        ({
            let rs = regions_of(hits, ctx);
            &&& forall|r: int| 0 <= r < rs.len() ==> (#[trigger] rs[r]).first <= rs[r].last && rs[r].last < hits.len()
            &&& forall|r: int| 0 <= r < rs.len() ==> (#[trigger] rs[r]).line_start == (if hits[rs[r].first as int].0 >= ctx + 1 {
                hits[rs[r].first as int].0 - ctx
            } else {
                1
            })
            &&& forall|r: int| 0 <= r < rs.len() ==> exists|k: int| (#[trigger] rs[r]).first <= k <= rs[r].last && hits[k].1 + ctx == rs[r].line_end
            &&& forall|r: int, k: int| 0 <= r < rs.len() && (#[trigger] rs[r]).first <= k <= rs[r].last ==> {
                &&& rs[r].line_start <= (if (#[trigger] hits[k]).0 >= ctx + 1 { hits[k].0 - ctx } else { 1 })
                &&& hits[k].1 + ctx <= rs[r].line_end
            }
        }),
    decreases hits.len(),
{
    if hits.len() > 0 {
        let d = hits.drop_last();
        assert forall|k: int| 0 <= k < d.len() implies #[trigger] d[k].1 + ctx < usize::MAX by {
            assert(d[k] == hits[k]);
        }
        assert forall|i: int, j: int| 0 <= i <= j < d.len() implies (#[trigger] d[i]).0 <= (#[trigger] d[j]).0 by {
            assert(d[i] == hits[i] && d[j] == hits[j]);
        }
        law_regions_cover_hits(d, ctx);
        law_regions_separated(d, ctx);
        let before = regions_of(d, ctx);
        let rs = regions_of(hits, ctx);
        let n = hits.len() - 1;
        let h = hits[n];
        assert(h == hits.last());
        assert(h.1 + ctx < usize::MAX);
        let ps = sub_floor(h.0 as int, ctx as int);
        let pe = h.1 + ctx;
        assert forall|k: int| 0 <= k < n implies #[trigger] hits[k] == d[k] by {}
        if before.len() > 0 && ps <= before.last().line_end + 1 {
            let lr = before.len() - 1;
            let l = before[lr];
            assert(l.first <= l.last);
            assert(hits[l.first as int] == d[l.first as int]);
            assert(hits[l.first as int].0 <= h.0);
            assert forall|r: int| 0 <= r < rs.len() implies (#[trigger] rs[r]).first <= rs[r].last && rs[r].last < hits.len() by {
                if r < lr {
                    assert(rs[r] == before[r]);
                }
            }
            assert forall|r: int| 0 <= r < rs.len() implies (#[trigger] rs[r]).line_start == (if hits[rs[r].first as int].0 >= ctx + 1 {
                hits[rs[r].first as int].0 - ctx
            } else {
                1
            }) by {
                if r < lr {
                    assert(rs[r] == before[r]);
                }
                assert(hits[rs[r].first as int] == d[rs[r].first as int]);
            }
            assert forall|r: int| 0 <= r < rs.len() implies exists|k: int| (#[trigger] rs[r]).first <= k <= rs[r].last && hits[k].1 + ctx == rs[r].line_end by {
                if r < lr {
                    assert(rs[r] == before[r]);
                    let k = choose|k: int| before[r].first <= k <= before[r].last && d[k].1 + ctx == before[r].line_end;
                    assert(hits[k] == d[k]);
                } else if l.line_end >= pe {
                    let k = choose|k: int| before[lr].first <= k <= before[lr].last && d[k].1 + ctx == before[lr].line_end;
                    assert(hits[k] == d[k]);
                } else {
                    assert(rs[r].last == n);
                    assert(hits[n as int].1 + ctx == rs[r].line_end);
                }
            }
            assert forall|r: int, k: int| 0 <= r < rs.len() && (#[trigger] rs[r]).first <= k <= rs[r].last implies {
                &&& rs[r].line_start <= (if (#[trigger] hits[k]).0 >= ctx + 1 { hits[k].0 - ctx } else { 1 })
                &&& hits[k].1 + ctx <= rs[r].line_end
            } by {
                if r < lr {
                    assert(rs[r] == before[r]);
                    assert(k < hits.len() - 1);
                    assert(hits[k] == d[k]);
                } else if k < n {
                    assert(hits[k] == d[k]);
                    assert(before[lr].first <= k <= before[lr].last);
                } else {
                    assert(k == n);
                }
            }
        } else {
            assert forall|r: int| 0 <= r < rs.len() implies (#[trigger] rs[r]).first <= rs[r].last && rs[r].last < hits.len() by {
                if r < before.len() {
                    assert(rs[r] == before[r]);
                }
            }
            assert forall|r: int| 0 <= r < rs.len() implies (#[trigger] rs[r]).line_start == (if hits[rs[r].first as int].0 >= ctx + 1 {
                hits[rs[r].first as int].0 - ctx
            } else {
                1
            }) by {
                if r < before.len() {
                    assert(rs[r] == before[r]);
                    assert(hits[rs[r].first as int] == d[rs[r].first as int]);
                }
            }
            assert forall|r: int| 0 <= r < rs.len() implies exists|k: int| (#[trigger] rs[r]).first <= k <= rs[r].last && hits[k].1 + ctx == rs[r].line_end by {
                if r < before.len() {
                    assert(rs[r] == before[r]);
                    let k = choose|k: int| before[r].first <= k <= before[r].last && d[k].1 + ctx == before[r].line_end;
                    assert(hits[k] == d[k]);
                } else {
                    assert(hits[n as int].1 + ctx == rs[r].line_end);
                }
            }
            assert forall|r: int, k: int| 0 <= r < rs.len() && (#[trigger] rs[r]).first <= k <= rs[r].last implies {
                &&& rs[r].line_start <= (if (#[trigger] hits[k]).0 >= ctx + 1 { hits[k].0 - ctx } else { 1 })
                &&& hits[k].1 + ctx <= rs[r].line_end
            } by {
                if r < before.len() {
                    assert(rs[r] == before[r]);
                    assert(hits[k] == d[k]);
                } else {
                    assert(k == n);
                }
            }
        }
    }
}

/// Merges the line ranges of a file's hits (sorted by start) into regions.
pub fn merge_regions(hits: &Vec<(usize, usize)>, context_lines: usize) -> (res: Vec<MergedRegion>)
    requires
        padding_fits(hits@, context_lines),
    ensures
        res@ == regions_of(hits@, context_lines),
{
    let mut regions: Vec<MergedRegion> = Vec::new();
    let mut k: usize = 0;
    assert(hits@.take(0) =~= Seq::<(usize, usize)>::empty());
    while k < hits.len()
        invariant
            k <= hits@.len(),
            padding_fits(hits@, context_lines),
            regions@ == regions_of(hits@.take(k as int), context_lines),
        decreases hits@.len() - k,
    {
        let h = hits[k];
        proof {
            let t = hits@.take(k as int);
            assert forall|j: int| 0 <= j < t.len() implies #[trigger] t[j].1 + context_lines < usize::MAX by {
                assert(t[j] == hits@[j]);
            }
            lemma_regions_bounded(t, context_lines);
            assert(hits@.take(k + 1).drop_last() =~= t);
            assert(hits@.take(k + 1).last() == h);
            assert(hits@[k as int].1 + context_lines < usize::MAX);
        }
        let ps = h.0.saturating_sub(context_lines);
        let pe = h.1 + context_lines;
        let n = regions.len();
        if n > 0 && ps <= regions[n - 1].line_end + 1 {
            let l = regions[n - 1];
            let end = if l.line_end >= pe {
                l.line_end
            } else {
                pe
            };
            regions.set(n - 1, MergedRegion { line_start: l.line_start, line_end: end, first: l.first, last: k });
        } else {
            regions.push(
                MergedRegion {
                    line_start: if ps >= 1 {
                        ps
                    } else {
                        1
                    },
                    line_end: pe,
                    first: k,
                    last: k,
                },
            );
        }
        k += 1;
    }
    assert(hits@.take(k as int) =~= hits@);
    regions
}

} // verus!
