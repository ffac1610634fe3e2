//! Turning search hits into analysis chunks: the hits grouped by file and
//! ordered by line, the source window of a merged region, and the module
//! path a file's relative path stands for.
use vstd::prelude::*;
use vstd::multiset::Multiset;
use crate::dup::{views, Dup};
use crate::text::{
    byte_len, byte_len_at_most, ends_with_str, from_chars, join, lines_of, prefix_within,
    prefix_within_bytes, push_str, replace, seq_ends_with, seq_join, seq_lines, seq_replace,
    slice_range, str_byte_len_sat, str_eq, to_chars,
};
use crate::translation::feedback::cuttable;

verus! {

/// A search hit: a file, relative to the repository, and the lines it
/// covers.
pub struct SearchHit {
    pub file_path: String,
    pub line_start: usize,
    pub line_end: usize,
}

/// `(line_start, line_end)` inserted among hits ordered by start, after
/// those that do not start later.
pub open spec fn insert_by_start(s: Seq<(usize, usize)>, x: (usize, usize)) -> Seq<(usize, usize)>
    decreases s.len(),
{
    if s.len() == 0 {
        seq![x]
    } else if x.0 < s.last().0 {
        insert_by_start(s.drop_last(), x).push(s.last())
    } else {
        s.push(x)
    }
}

/// Where the group of file `p` stands among the groups, looking from `i`.
pub open spec fn group_from(gs: Seq<(Seq<char>, Seq<(usize, usize)>)>, p: Seq<char>, i: int) -> Option<int>
    decreases gs.len() - i,
{
    if i < 0 || i >= gs.len() {
        None
    } else if gs[i].0 == p {
        Some(i)
    } else {
        group_from(gs, p, i + 1)
    }
}

/// The hits grouped by file, the files in the order they first appear,
/// each file's hits ordered by start (hits that start together keep their
/// order).
pub open spec fn hit_groups(hs: Seq<(Seq<char>, usize, usize)>) -> Seq<(Seq<char>, Seq<(usize, usize)>)>
    decreases hs.len(),
{
    if hs.len() == 0 {
        Seq::empty()
    } else {
        let before = hit_groups(hs.drop_last());
        let h = hs.last();
        match group_from(before, h.0, 0) {
            Some(g) => before.update(g, (h.0, insert_by_start(before[g].1, (h.1, h.2)))),
            None => before.push((h.0, seq![(h.1, h.2)])),
        }
    }
}

proof fn lemma_group_from(gs: Seq<(Seq<char>, Seq<(usize, usize)>)>, p: Seq<char>, i: int)
    requires
        0 <= i,
    ensures
        match group_from(gs, p, i) {
            Some(g) => i <= g < gs.len() && gs[g].0 == p,
            None => true,
        },
    decreases gs.len() - i,
{
    if i < gs.len() && gs[i].0 != p {
        lemma_group_from(gs, p, i + 1);
    }
}

/// Hits in order of their first line.
pub open spec fn starts_sorted(s: Seq<(usize, usize)>) -> bool {
    forall|i: int, j: int| 0 <= i < j < s.len() ==> #[trigger] s[i].0 <= #[trigger] s[j].0
}

proof fn lemma_insert_by_start(s: Seq<(usize, usize)>, x: (usize, usize))
    requires
        starts_sorted(s),
    ensures
        starts_sorted(insert_by_start(s, x)),
        insert_by_start(s, x).to_multiset() == s.to_multiset().insert(x),
    decreases s.len(),
{
    broadcast use vstd::seq_lib::to_multiset_build, vstd::seq_lib::to_multiset_contains;

    if s.len() == 0 {
        assert(s.to_multiset() =~= Multiset::empty());
        assert(seq![x] =~= Seq::<(usize, usize)>::empty().push(x));
    } else {
        let s1 = s.drop_last();
        let last = s.last();
        assert(s =~= s1.push(last));
        if x.0 < last.0 {
            lemma_insert_by_start(s1, x);
            let r1 = insert_by_start(s1, x);
            assert forall|i: int| 0 <= i < r1.len() implies #[trigger] r1[i].0 <= last.0 by {
                assert(r1.contains(r1[i]));
                assert(r1.to_multiset().count(r1[i]) > 0);
                if r1[i] != x {
                    assert(s1.to_multiset().count(r1[i]) > 0);
                    assert(s1.contains(r1[i]));
                    let j = choose|j: int| 0 <= j < s1.len() && s1[j] == r1[i];
                    assert(s[j] == s1[j]);
                    assert(s[s.len() - 1] == last);
                }
            }
            assert(s1.to_multiset().insert(x).insert(last) =~= s1.to_multiset().insert(last).insert(x));
        } else {
            let r = s.push(x);
            assert forall|i: int, j: int| 0 <= i < j < r.len() implies #[trigger] r[i].0 <= #[trigger] r[j].0 by {
                if j == s.len() {
                    assert(r[i] == s[i]);
                    if i < s.len() - 1 {
                        assert(s[i].0 <= s[s.len() - 1].0);
                    }
                } else {
                    assert(r[i] == s[i] && r[j] == s[j]);
                }
            }
        }
    }
}

proof fn lemma_group_absent(gs: Seq<(Seq<char>, Seq<(usize, usize)>)>, p: Seq<char>, i: int)
    requires
        0 <= i,
        group_from(gs, p, i) is None,
    ensures
        forall|j: int| i <= j < gs.len() ==> gs[j].0 != p,
    decreases gs.len() - i,
{
    if i < gs.len() {
        lemma_group_absent(gs, p, i + 1);
    }
}

/// Grouped hits name each file once, and list each file's hits in order of
/// their first line.
pub proof fn law_hit_groups(hs: Seq<(Seq<char>, usize, usize)>)
    ensures
        ({
            let gs = hit_groups(hs);
            &&& forall|i: int, j: int| 0 <= i < j < gs.len() ==> #[trigger] gs[i].0 != #[trigger] gs[j].0
            &&& forall|i: int| 0 <= i < gs.len() ==> starts_sorted(#[trigger] gs[i].1)
        }),
    decreases hs.len(),
{
    if hs.len() > 0 {
        law_hit_groups(hs.drop_last());
        let before = hit_groups(hs.drop_last());
        let h = hs.last();
        let gs = hit_groups(hs);
        lemma_group_from(before, h.0, 0);
        match group_from(before, h.0, 0) {
            Some(g) => {
                lemma_insert_by_start(before[g].1, (h.1, h.2));
                assert forall|i: int| 0 <= i < gs.len() implies starts_sorted(#[trigger] gs[i].1) by {
                    if i != g {
                        assert(gs[i] == before[i]);
                    }
                }
                assert forall|i: int, j: int| 0 <= i < j < gs.len() implies #[trigger] gs[i].0 != #[trigger] gs[j].0 by {
                    assert(gs[i].0 == before[i].0);
                    assert(gs[j].0 == before[j].0);
                }
            },
            None => {
                lemma_group_absent(before, h.0, 0);
                assert forall|i: int| 0 <= i < gs.len() implies starts_sorted(#[trigger] gs[i].1) by {
                    if i < before.len() {
                        assert(gs[i] == before[i]);
                    }
                }
                assert forall|i: int, j: int| 0 <= i < j < gs.len() implies #[trigger] gs[i].0 != #[trigger] gs[j].0 by {
                    assert(gs[i] == before[i]);
                    if j < before.len() {
                        assert(gs[j] == before[j]);
                    }
                }
            },
        }
    }
}

pub open spec fn hit_views(hs: Seq<SearchHit>) -> Seq<(Seq<char>, usize, usize)> {
    hs.map_values(|h: SearchHit| (h.file_path@, h.line_start, h.line_end))
}

pub open spec fn group_views(gs: Seq<(String, Vec<(usize, usize)>)>) -> Seq<(Seq<char>, Seq<(usize, usize)>)> {
    gs.map_values(|g: (String, Vec<(usize, usize)>)| (g.0@, g.1@))
}

fn insert_hit(v: &mut Vec<(usize, usize)>, x: (usize, usize))
    ensures
        final(v)@ == insert_by_start(old(v)@, x),
{
    let ghost s0 = v@;
    let mut k = v.len();
    assert(s0.take(s0.len() as int) =~= s0);
    assert(s0.skip(s0.len() as int) =~= Seq::<(usize, usize)>::empty());
    assert(insert_by_start(s0, x) + Seq::<(usize, usize)>::empty() =~= insert_by_start(s0, x));
    while k > 0 && x.0 < v[k - 1].0
        invariant
            k <= v@.len(),
            v@ == s0,
            insert_by_start(s0, x) == insert_by_start(s0.take(k as int), x) + s0.skip(k as int),
        decreases k,
    {
        proof {
            let t = s0.take(k as int);
            assert(t.last() == v@[k - 1]);
            assert(t.drop_last() =~= s0.take(k - 1));
            assert(s0.skip(k - 1) =~= seq![t.last()] + s0.skip(k as int));
            assert(insert_by_start(s0.take(k - 1), x).push(t.last()) + s0.skip(k as int)
                =~= insert_by_start(s0.take(k - 1), x) + s0.skip(k - 1));
        }
        k -= 1;
    }
    proof {
        let t = s0.take(k as int);
        if k > 0 {
            assert(t.last() == v@[k - 1]);
            assert(insert_by_start(t, x) == t.push(x));
        } else {
            assert(insert_by_start(t, x) == seq![x]);
        }
    }
    v.insert(k, x);
    proof {
        assert(v@ =~= s0.take(k as int).push(x) + s0.skip(k as int));
    }
}

fn find_group(gs: &Vec<(String, Vec<(usize, usize)>)>, p: &str) -> (res: Option<usize>)
    ensures
        match group_from(group_views(gs@), p@, 0) {
            Some(g) => res is Some && res->0 as int == g,
            None => res is None,
        },
{
    let ghost vs = group_views(gs@);
    let mut i: usize = 0;
    while i < gs.len()
        invariant
            i <= gs@.len(),
            vs == group_views(gs@),
            group_from(vs, p@, 0) == group_from(vs, p@, i as int),
        decreases gs@.len() - i,
    {
        if str_eq(gs[i].0.as_str(), p) {
            return Some(i);
        }
        i += 1;
    }
    None
}

/// Groups search hits by file, files in the order they first appear, and
/// orders each file's hits by their first line.
pub fn group_hits(hits: Vec<SearchHit>) -> (res: Vec<(String, Vec<(usize, usize)>)>)
    ensures
        group_views(res@) == hit_groups(hit_views(hits@)),
{
    let ghost hs = hit_views(hits@);
    let mut groups: Vec<(String, Vec<(usize, usize)>)> = Vec::new();
    assert(hs.take(0) =~= Seq::<(Seq<char>, usize, usize)>::empty());
    assert(group_views(groups@) =~= Seq::<(Seq<char>, Seq<(usize, usize)>)>::empty());
    for h in it: hits
        invariant
            hs == hit_views(it.seq()),
            group_views(groups@) == hit_groups(hs.take(it.index() as int)),
    {
        let ghost k = it.index();
        let ghost before = group_views(groups@);
        proof {
            assert(hs.take(k + 1).drop_last() =~= hs.take(k as int));
            assert(hs.take(k + 1).last() == (h.file_path@, h.line_start, h.line_end));
        }
        proof {
            lemma_group_from(before, h.file_path@, 0);
        }
        let found = find_group(&groups, h.file_path.as_str());
        assert(found matches Some(g) ==> before[g as int].0 == h.file_path@);
        match found {
            Some(g) => {
                let ghost old_groups = groups@;
                let (path, mut list) = groups.remove(g);
                assert(path@ == before[g as int].0 && list@ == before[g as int].1);
                insert_hit(&mut list, (h.line_start, h.line_end));
                groups.insert(g, (path, list));
                proof {
                    assert(groups@ =~= old_groups.update(g as int, groups@[g as int]));
                    assert forall|j: int| 0 <= j < groups@.len() && j != g implies #[trigger] group_views(groups@)[j] == before[j] by {
                        assert(groups@[j] == old_groups[j]);
                    }
                    assert(group_views(groups@) =~= before.update(
                        g as int,
                        (h.file_path@, insert_by_start(before[g as int].1, (h.line_start, h.line_end))),
                    ));
                }
            },
            None => {
                let mut list: Vec<(usize, usize)> = Vec::new();
                list.push((h.line_start, h.line_end));
                groups.push((h.file_path, list));
                proof {
                    assert(group_views(groups@) =~= before.push((h.file_path@, seq![(h.line_start, h.line_end)])));
                }
            },
        }
    }
    assert(hs.take(hs.len() as int) =~= hs);
    groups
}

/// `p` with every trailing `.rs` taken off (`str::trim_end_matches`).
pub open spec fn trim_rs(p: Seq<char>) -> Seq<char>
    decreases p.len(),
{
    if p.len() >= 3 && seq_ends_with(p, ".rs"@) {
        trim_rs(p.take(p.len() - 3))
    } else {
        p
    }
}

/// The module path a file's relative path stands for: `.rs` taken off,
/// `/` read as `::`, `::mod` dropped, and `::lib` and `::main` read as
/// `crate`, each replacement made wherever the text occurs.
pub open spec fn file_module_path(p: Seq<char>) -> Seq<char> {
    seq_replace(
        seq_replace(
            seq_replace(seq_replace(trim_rs(p), "/"@, "::"@), "::mod"@, ""@),
            "::lib"@,
            "crate"@,
        ),
        "::main"@,
        "crate"@,
    )
}

/// The module path of a file given by its path relative to the
/// repository.
pub fn module_path_of_file(relative_path: &str) -> (res: String)
    ensures
        res@ == file_module_path(relative_path@),
{
    let mut cs = to_chars(relative_path);
    while cs.len() >= 3 && ends_with_str(cs.as_slice(), ".rs")
        invariant
            trim_rs(cs@) == trim_rs(relative_path@),
        decreases cs@.len(),
    {
        proof {
            reveal_strlit(".rs");
        }
        cs = slice_range(cs.as_slice(), 0, cs.len() - 3);
    }
    proof {
        reveal_strlit(".rs");
        reveal_strlit("/");
        reveal_strlit("::");
        reveal_strlit("::mod");
        reveal_strlit("");
        reveal_strlit("::lib");
        reveal_strlit("crate");
        reveal_strlit("::main");
    }
    let a = replace(cs.as_slice(), to_chars("/").as_slice(), to_chars("::").as_slice());
    let b = replace(a.as_slice(), to_chars("::mod").as_slice(), to_chars("").as_slice());
    let c = replace(b.as_slice(), to_chars("::lib").as_slice(), to_chars("crate").as_slice());
    let d = replace(c.as_slice(), to_chars("::main").as_slice(), to_chars("crate").as_slice());
    from_chars(d.as_slice())
}

/// The first index of the window of lines `line_start..=line_end`
/// (counted from 1).
pub open spec fn window_first(line_start: nat) -> int {
    if line_start >= 1 {
        line_start - 1
    } else {
        0
    }
}

/// The index past the window's last line, within the file.
pub open spec fn window_past(line_end: nat, n: nat) -> int {
    if line_end <= n {
        line_end as int
    } else {
        n as int
    }
}

/// The window starts no later than it ends, within the file's lines.
pub open spec fn window_in_file(source: Seq<char>, line_start: nat, line_end: nat) -> bool {
    window_first(line_start) <= window_past(line_end, seq_lines(source).len())
}

/// The lines `line_start..=line_end` of a source, joined by line breaks.
pub open spec fn window_text(source: Seq<char>, line_start: nat, line_end: nat) -> Seq<char> {
    let ls = seq_lines(source);
    seq_join(ls.subrange(window_first(line_start), window_past(line_end, ls.len())), "\n"@)
}

/// The source of a merged region: its lines, joined by line breaks.
pub fn region_window(source: &str, line_start: usize, line_end: usize) -> (res: String)
    requires
        window_in_file(source@, line_start as nat, line_end as nat),
    ensures
        res@ == window_text(source@, line_start as nat, line_end as nat),
{
    let lines = lines_of(source);
    let ghost ls = seq_lines(source@);
    let start = if line_start >= 1 {
        line_start - 1
    } else {
        0
    };
    let end = if line_end <= lines.len() {
        line_end
    } else {
        lines.len()
    };
    let mut picked: Vec<String> = Vec::new();
    let mut i = start;
    while i < end
        invariant
            start <= i <= end <= lines@.len(),
            views(lines@) == ls,
            views(picked@) == ls.subrange(start as int, i as int),
        decreases end - i,
    {
        let ghost before = views(picked@);
        let line = lines[i].dup();
        assert(line@ == ls[i as int]);
        picked.push(line);
        assert(views(picked@) =~= before.push(ls[i as int]));
        assert(views(picked@) =~= ls.subrange(start as int, i + 1));
        i += 1;
    }
    join(&picked, "\n")
}

/// A region's chunk source: none when under 20 bytes, else the window cut
/// to `max_chars` bytes with a note when it is longer.
pub open spec fn chunk_text(raw: Seq<char>, max_chars: nat) -> Option<Seq<char>> {
    if byte_len(raw) < 20 {
        None
    } else if byte_len(raw) > max_chars {
        Some(prefix_within(raw, max_chars) + "...\n// (truncated)"@)
    } else {
        Some(raw)
    }
}

/// The chunk source of a region's window, or `None` for a window too small
/// to analyze.
pub fn chunk_source(raw: &str, max_chars: usize) -> (res: Option<String>)
    requires
        cuttable(raw@, max_chars as nat),
    ensures
        match chunk_text(raw@, max_chars as nat) {
            Some(t) => res is Some && res->0@ == t,
            None => res is None,
        },
{
    let n = str_byte_len_sat(raw);
    if n < 20 {
        return None;
    }
    let cs = to_chars(raw);
    if byte_len_at_most(cs.as_slice(), max_chars) {
        Some(String::from_str(raw))
    } else {
        let head = prefix_within_bytes(cs.as_slice(), max_chars);
        let mut out = from_chars(head.as_slice());
        push_str(&mut out, "...\n// (truncated)");
        Some(out)
    }
}

} // verus!
