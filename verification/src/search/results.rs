//! Reading octocode's text answer into search hits. The answer lists
//! entries separated by blank lines, each like
//!
//! ```text
//! 1. src/foo.rs
//!    | Similarity 0.85
//! 42: pub struct Foo {
//! 43:     bar: i32,
//! ```
//!
//! A result is the file an entry names, the range of the line numbers it
//! shows, and the similarity as the text it is written in.
use vstd::prelude::*;
use crate::dup::{opt_view, views};

use crate::text::{from_chars, parse_usize, parsed_uint, seq_split_str, split_str_on, to_chars};
use crate::translation::patterns::{regex_all_captures, regex_group_list};

verus! {

/// An entry's heading: its number, a dot, and the path of a Rust file.
pub const FILE_PATTERN: &'static str = r"(\d+)\.\s+([^\s]+\.rs)";

/// The similarity of an entry.
pub const SIMILARITY_PATTERN: &'static str = r"Similarity\s+([0-9.]+)";

/// One entry of the answer: the file, the similarity as written, and the
/// lines shown.
pub struct SearchResult {
    pub file_path: String,
    pub similarity: Option<String>,
    pub line_start: usize,
    pub line_end: usize,
}

pub open spec fn result_views(rs: Seq<SearchResult>) -> Seq<(Seq<char>, Option<Seq<char>>, usize, usize)> {
    rs.map_values(|r: SearchResult| (r.file_path@, opt_view(r.similarity), r.line_start, r.line_end))
}

/// The similarity of an entry: the first match's number, as written.
pub open spec fn similarity_of(entry: Seq<char>) -> Option<Seq<char>> {
    match regex_group_list(SIMILARITY_PATTERN@, entry, 1) {
        Some(l) => if l.len() > 0 {
            l[0]
        } else {
            None
        },
        None => None,
    }
}

/// A line of code, led by its number and a colon.
pub const LINE_PATTERN: &'static str = r"(?m)^(\d+):";

/// The numbers among the captured texts that read as a `usize`, in order.
pub open spec fn numbers_of(caps: Seq<Option<Seq<char>>>) -> Seq<nat>
    decreases caps.len(),
{
    if caps.len() == 0 {
        Seq::empty()
    } else {
        let before = numbers_of(caps.drop_last());
        match caps.last() {
            Some(t) => match parsed_uint(t, usize::MAX as nat) {
                Some(n) => before.push(n),
                None => before,
            },
            None => before,
        }
    }
}

pub open spec fn seq_min(s: Seq<nat>) -> nat
    decreases s.len(),
{
    if s.len() <= 1 {
        if s.len() == 0 {
            0
        } else {
            s[0]
        }
    } else {
        let m = seq_min(s.drop_last());
        if s.last() < m {
            s.last()
        } else {
            m
        }
    }
}

pub open spec fn seq_max(s: Seq<nat>) -> nat
    decreases s.len(),
{
    if s.len() <= 1 {
        if s.len() == 0 {
            0
        } else {
            s[0]
        }
    } else {
        let m = seq_max(s.drop_last());
        if s.last() > m {
            s.last()
        } else {
            m
        }
    }
}

/// The result of one entry: the file named by the first heading match (its
/// second group), the similarity, and the least and greatest line number
/// shown; none when there is no heading or no line number.
pub open spec fn entry_hit(entry: Seq<char>) -> Option<(Seq<char>, Option<Seq<char>>, usize, usize)> {
    match regex_group_list(FILE_PATTERN@, entry, 2) {
        Some(files) => if files.len() > 0 && files[0] is Some {
            match regex_group_list(LINE_PATTERN@, entry, 1) {
                Some(lines) => {
                    let ns = numbers_of(lines);
                    if ns.len() > 0 {
                        Some((files[0]->0, similarity_of(entry), seq_min(ns) as usize, seq_max(ns) as usize))
                    } else {
                        None
                    }
                },
                None => None,
            }
        } else {
            None
        },
        None => None,
    }
}

/// The hits of the entries, in order.
pub open spec fn hits_of_entries(entries: Seq<Seq<char>>) -> Seq<(Seq<char>, Option<Seq<char>>, usize, usize)>
    decreases entries.len(),
{
    if entries.len() == 0 {
        Seq::empty()
    } else {
        let before = hits_of_entries(entries.drop_last());
        match entry_hit(entries.last()) {
            Some(h) => before.push(h),
            None => before,
        }
    }
}

/// The hits of an answer: of its entries, split at blank lines.
pub open spec fn search_hits_of(text: Seq<char>) -> Seq<(Seq<char>, Option<Seq<char>>, usize, usize)> {
    hits_of_entries(seq_split_str(text, "\n\n"@))
}

/// The least and greatest number among the captured texts that read as a
/// `usize`; none when none does.
fn line_range(caps: &Vec<Option<String>>) -> (res: Option<(usize, usize)>)
    ensures
        ({
            let ns = numbers_of(caps@.map_values(|g: Option<String>| opt_view(g)));
            match res {
                Some((lo, hi)) => ns.len() > 0 && lo == seq_min(ns) && hi == seq_max(ns),
                None => ns.len() == 0,
            }
        }),
{
    let ghost cv = caps@.map_values(|g: Option<String>| opt_view(g));
    let mut lo: usize = 0;
    let mut hi: usize = 0;
    let mut any = false;
    let mut i: usize = 0;
    assert(cv.take(0) =~= Seq::<Option<Seq<char>>>::empty());
    while i < caps.len()
        invariant
            i <= caps@.len(),
            cv == caps@.map_values(|g: Option<String>| opt_view(g)),
            ({
                let ns = numbers_of(cv.take(i as int));
                &&& any <==> ns.len() > 0
                &&& any ==> lo == seq_min(ns) && hi == seq_max(ns)
                &&& forall|k: int| 0 <= k < ns.len() ==> #[trigger] ns[k] <= usize::MAX
            }),
        decreases caps@.len() - i,
    {
        let ghost before = numbers_of(cv.take(i as int));
        proof {
            assert(cv.take(i + 1).drop_last() =~= cv.take(i as int));
            assert(cv.take(i + 1).last() == cv[i as int]);
            assert(cv[i as int] == opt_view(caps@[i as int]));
        }
        match &caps[i] {
            Some(t) => {
                let tc = to_chars(t.as_str());
                match parse_usize(tc.as_slice()) {
                    Some(n) => {
                        let ghost after = before.push(n as nat);
                        assert(numbers_of(cv.take(i + 1)) == after);
                        assert(after.drop_last() =~= before);
                        assert forall|k: int| 0 <= k < after.len() implies #[trigger] after[k] <= usize::MAX by {
                            if k < before.len() {
                                assert(after[k] == before[k]);
                            }
                        }
                        if !any {
                            lo = n;
                            hi = n;
                            any = true;
                            assert(before.len() == 0);
                            assert(after =~= seq![n as nat]);
                        } else {
                            if n < lo {
                                lo = n;
                            }
                            if n > hi {
                                hi = n;
                            }
                        }
                    },
                    None => {
                        assert(numbers_of(cv.take(i + 1)) == before);
                    },
                }
            },
            None => {
                assert(numbers_of(cv.take(i + 1)) == before);
            },
        }
        i += 1;
    }
    assert(cv.take(i as int) =~= cv);
    if any {
        Some((lo, hi))
    } else {
        None
    }
}

/// The hit of one entry, if it has one (see `entry_hit`).
fn entry_hit_exec(entry: &str) -> (res: Option<SearchResult>)
    ensures
        match entry_hit(entry@) {
            Some(h) => res matches Some(r) && (r.file_path@, opt_view(r.similarity), r.line_start, r.line_end) == h,
            None => res is None,
        },
{
    let files = match regex_all_captures(FILE_PATTERN, entry, 2) {
        Some(f) => f,
        None => {
            return None;
        },
    };
    if files.len() == 0 {
        return None;
    }
    let file = match &files[0] {
        Some(f) => f.clone(),
        None => {
            return None;
        },
    };
    assert(file@ == opt_view(files@[0])->0);
    let lines = match regex_all_captures(LINE_PATTERN, entry, 1) {
        Some(l) => l,
        None => {
            return None;
        },
    };
    let similarity = match regex_all_captures(SIMILARITY_PATTERN, entry, 1) {
        Some(l) => {
            if l.len() > 0 {
                crate::dup::dup_opt(&l[0])
            } else {
                None
            }
        },
        None => None,
    };
    match line_range(&lines) {
        Some((lo, hi)) => Some(SearchResult { file_path: file, similarity, line_start: lo, line_end: hi }),
        None => None,
    }
}

/// Reads octocode's answer into hits, one per entry that names a Rust file
/// and shows line numbers, in order.
pub fn parse_search_results(text: &str) -> (res: Vec<SearchResult>)
    ensures
        result_views(res@) == search_hits_of(text@),
{
    proof {
        reveal_strlit("\n\n");
    }
    let sep = to_chars("\n\n");
    let entries = split_str_on(to_chars(text).as_slice(), sep.as_slice());
    let ghost es = seq_split_str(text@, "\n\n"@);
    let mut out: Vec<SearchResult> = Vec::new();
    let mut i: usize = 0;
    assert(es.take(0) =~= Seq::<Seq<char>>::empty());
    assert(result_views(out@) =~= Seq::<(Seq<char>, Option<Seq<char>>, usize, usize)>::empty());
    while i < entries.len()
        invariant
            i <= entries@.len() == es.len(),
            forall|k: int| 0 <= k < entries@.len() ==> #[trigger] entries@[k]@ == es[k],
            result_views(out@) == hits_of_entries(es.take(i as int)),
        decreases entries@.len() - i,
    {
        proof {
            assert(es.take(i + 1).drop_last() =~= es.take(i as int));
            assert(es.take(i + 1).last() == es[i as int]);
        }
        let entry = from_chars(entries[i].as_slice());
        let ghost before = result_views(out@);
        match entry_hit_exec(entry.as_str()) {
            Some(h) => {
                out.push(h);
                assert(result_views(out@) =~= before.push(entry_hit(es[i as int])->0));
            },
            None => {},
        }
        i += 1;
    }
    assert(es.take(i as int) =~= es);
    out
}

} // verus!
