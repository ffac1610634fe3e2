//! Parsing a source file into code items, and the tolerant parse: when `syn`
//! rejects a file, the text is rewritten step by step (feature gates,
//! `cfg_select!` blocks, `unsafe extern`, inner attributes) and parsed again,
//! and as a last resort each top-level item is parsed on its own.
use vstd::prelude::*;
use crate::dup::views;
use crate::parser::ast::{CodeItem, CodeItemV};
use crate::parser::extract::{extract_items, items_of};
use crate::parser::syn_bridge::{parse_syn_file, parse_syn_item, syn_file, syn_item};
use crate::text::{
    seq_join, seq_lines, seq_replace, seq_split, seq_starts_with, seq_trim, strip_cr, find_newline,
    from_chars, join, lemma_lines_last, lemma_lines_step, lines_of, push_char, push_str, replace,
    slice_range, split_on, starts_with_str, to_chars, trim, trim_str, is_whitespace,
};

verus! {

// ---------------------------------------------------------------------------
// Parsing
// ---------------------------------------------------------------------------

/// A parse result seen through the views of its items and error message.
pub open spec fn result_view(r: Result<Vec<CodeItem>, String>) -> Result<Seq<CodeItemV>, Seq<char>> {
    match r {
        Ok(items) => Ok(views(items@)),
        Err(msg) => Err(msg@),
    }
}

/// The code items of `text` as `syn` parses it, or `syn`'s error message.
pub open spec fn parsed(path: Seq<char>, text: Seq<char>) -> Result<Seq<CodeItemV>, Seq<char>> {
    match syn_file(text) {
        Ok(raws) => Ok(items_of(path, raws)),
        Err(msg) => Err(msg),
    }
}

/// Parses one Rust file and extracts its code items.
pub fn parse_file(path: &str, content: &str) -> (res: Result<Vec<CodeItem>, String>)
    ensures
        result_view(res) == parsed(path@, content@),
{
    match parse_syn_file(content) {
        Ok(raws) => Ok(extract_items(&raws, path)),
        Err(msg) => Err(msg),
    }
}

// ---------------------------------------------------------------------------
// Line filters
// ---------------------------------------------------------------------------

/// The line, trimmed, starts with `p`.
pub open spec fn trimmed_starts(line: Seq<char>, p: Seq<char>) -> bool {
    seq_starts_with(seq_trim(line), p)
}

/// The two line filters of the tolerant parse.
#[derive(Clone, Copy, PartialEq, Eq, Structural)]
pub enum LineRule {
    /// drops `#![feature(..)]` and `#![cfg_attr(..)]` lines
    FeatureGates,
    /// drops every inner attribute line but `#![doc..]` and `#![allow..]`
    InnerAttributes,
}

pub open spec fn keeps_line(rule: LineRule, line: Seq<char>) -> bool {
    match rule {
        LineRule::FeatureGates => !(trimmed_starts(line, "#![feature("@) || trimmed_starts(
            line,
            "#![cfg_attr("@,
        )),
        LineRule::InnerAttributes => trimmed_starts(line, "#!["@) ==> (trimmed_starts(
            line,
            "#![doc"@,
        ) || trimmed_starts(line, "#![allow"@)),
    }
}

pub open spec fn line_pred(rule: LineRule) -> spec_fn(Seq<char>) -> bool {
    |l: Seq<char>| keeps_line(rule, l)
}

/// The lines of `s` that the rule keeps, joined by newlines.
pub open spec fn filtered_lines(rule: LineRule, s: Seq<char>) -> Seq<char> {
    seq_join(seq_lines(s).filter(line_pred(rule)), "\n"@)
}

fn keeps(rule: LineRule, line: &str) -> (res: bool)
    ensures
        res == keeps_line(rule, line@),
{
    let t = trim(to_chars(line).as_slice());
    match rule {
        LineRule::FeatureGates => !(starts_with_str(t.as_slice(), "#![feature(")
            || starts_with_str(t.as_slice(), "#![cfg_attr(")),
        LineRule::InnerAttributes => !starts_with_str(t.as_slice(), "#![") || starts_with_str(
            t.as_slice(),
            "#![doc",
        ) || starts_with_str(t.as_slice(), "#![allow"),
    }
}

/// The lines of `content` that `rule` keeps, joined by newlines.
pub fn filter_lines(content: &str, rule: LineRule) -> (res: String)
    ensures
        res@ == filtered_lines(rule, content@),
{
    let lines = lines_of(content);
    let ghost ls = views(lines@);
    let mut kept: Vec<String> = Vec::new();
    let mut i: usize = 0;
    while i < lines.len()
        invariant
            i <= lines@.len(),
            ls == views(lines@),
            views(kept@) == ls.take(i as int).filter(line_pred(rule)),
        decreases lines@.len() - i,
    {
        proof {
            assert(ls.take(i + 1).drop_last() =~= ls.take(i as int));
            assert(ls.take(i + 1).last() == lines@[i as int]@);
        }
        let keep = keeps(rule, lines[i].as_str());
        proof {
            assert(line_pred(rule)(lines@[i as int]@) == keep);
            reveal(Seq::filter);
            let q = ls.take(i + 1);
            assert(q.filter(line_pred(rule)) == (if line_pred(rule)(q.last()) {
                q.drop_last().filter(line_pred(rule)).push(q.last())
            } else {
                q.drop_last().filter(line_pred(rule))
            }));
        }
        if keep {
            kept.push(lines[i].clone());
            proof {
                assert(views(kept@) =~= ls.take(i as int).filter(line_pred(rule)).push(
                    lines@[i as int]@,
                ));
            }
        }
        i += 1;
    }
    proof {
        assert(ls.take(lines@.len() as int) =~= ls);
    }
    join(&kept, "\n")
}

/// Drops every inner attribute line except `#![doc..]` and `#![allow..]`.
pub fn strip_inner_attributes(content: &str) -> (res: String)
    ensures
        res@ == filtered_lines(LineRule::InnerAttributes, content@),
{
    filter_lines(content, LineRule::InnerAttributes)
}

// ---------------------------------------------------------------------------
// cfg_select! blocks
// ---------------------------------------------------------------------------

/// Opening braces minus closing braces in `line`.
pub open spec fn net_braces(line: Seq<char>) -> int
    decreases line.len(),
{
    if line.len() == 0 {
        0
    } else {
        net_braces(line.drop_last()) + (if line.last() == '{' {
            1int
        } else if line.last() == '}' {
            -1int
        } else {
            0int
        })
    }
}

/// The line opens a `cfg_select!` invocation.
pub open spec fn is_cfg_select_start(line: Seq<char>) -> bool {
    trimmed_starts(line, "cfg_select!"@) || trimmed_starts(line, "cfg_select !"@)
}

/// The lines, each followed by a newline, with `cfg_select!` blocks left
/// out. `depth` is the brace depth of a block being skipped (at most zero
/// when no block is being skipped).
pub open spec fn cfg_strip_lines(ls: Seq<Seq<char>>, depth: int) -> Seq<char>
    decreases ls.len(),
{
    if ls.len() == 0 {
        Seq::empty()
    } else {
        let line = ls[0];
        let rest = ls.drop_first();
        if depth > 0 {
            cfg_strip_lines(rest, depth + net_braces(line))
        } else if is_cfg_select_start(line) {
            let d = net_braces(line);
            cfg_strip_lines(rest, if d > 0 { d } else { 0 })
        } else {
            line + "\n"@ + cfg_strip_lines(rest, 0)
        }
    }
}

/// What stripping the `cfg_select!` blocks of `s` gives.
pub open spec fn cfg_select_stripped(s: Seq<char>) -> Seq<char> {
    cfg_strip_lines(seq_lines(s), 0)
}

fn net_braces_exec(line: &[char]) -> (res: i128)
    ensures
        res == net_braces(line@),
        -(line@.len() as int) <= res <= line@.len(),
{
    let mut n: i128 = 0;
    let mut i: usize = 0;
    while i < line.len()
        invariant
            i <= line@.len(),
            n == net_braces(line@.take(i as int)),
            -(i as int) <= n <= i,
        decreases line@.len() - i,
    {
        proof {
            assert(line@.take(i + 1).drop_last() =~= line@.take(i as int));
        }
        if line[i] == '{' {
            n = n + 1;
        } else if line[i] == '}' {
            n = n - 1;
        }
        i += 1;
    }
    proof {
        assert(line@.take(line@.len() as int) =~= line@);
    }
    n
}

fn is_cfg_select_start_exec(line: &[char]) -> (res: bool)
    ensures
        res == is_cfg_select_start(line@),
{
    let t = trim(line);
    starts_with_str(t.as_slice(), "cfg_select!") || starts_with_str(t.as_slice(), "cfg_select !")
}

/// The line of `s` that starts at `start`, and where the next one starts.
fn next_line(s: &[char], start: usize) -> (res: (Vec<char>, usize))
    requires
        start < s@.len(),
    ensures
        start < res.1 <= s@.len(),
        res.0@.len() <= res.1 - start,
        seq_lines(s@.subrange(start as int, s@.len() as int)) == seq![res.0@] + seq_lines(
            s@.subrange(res.1 as int, s@.len() as int),
        ),
{
    match find_newline(s, start) {
        Some(j) => {
            proof {
                lemma_lines_step(s@, start as int, j as int);
            }
            let mut end = j;
            if end > start && s[end - 1] == '\r' {
                end = end - 1;
            }
            let line = slice_range(s, start, end);
            assert(line@ == strip_cr(s@.subrange(start as int, j as int)));
            assert(j < s@.len() == s.len());
            (line, j + 1)
        },
        None => {
            proof {
                lemma_lines_last(s@, start as int);
                lemma_lines_last(s@, s@.len() as int);
            }
            let line = slice_range(s, start, s.len());
            assert(seq![line@] + Seq::<Seq<char>>::empty() =~= seq![line@]);
            (line, s.len())
        },
    }
}

/// Leaves out the `cfg_select! { ... }` blocks of `content`, following the
/// braces from the line that opens a block to the line that closes it. Every
/// kept line ends with a newline.
pub fn strip_cfg_select_blocks(content: &str) -> (res: String)
    ensures
        res@ == cfg_select_stripped(content@),
{
    let cs = to_chars(content);
    let n = cs.len();
    let mut out = String::new();
    let mut start: usize = 0;
    let mut depth: i128 = 0;
    assert(cs@.subrange(0, n as int) =~= cs@);
    while start < n
        invariant
            n == cs@.len(),
            start <= n,
            -(start as int) <= depth <= start,
            out@ + cfg_strip_lines(seq_lines(cs@.subrange(start as int, n as int)), depth as int)
                == cfg_select_stripped(content@),
            cs@ == content@,
        decreases n - start,
    {
        let (line, next) = next_line(cs.as_slice(), start);
        let ghost rest = seq_lines(cs@.subrange(next as int, n as int));
        let ghost ls = seq![line@] + rest;
        proof {
            assert(ls[0] == line@);
            assert(ls.drop_first() =~= rest);
        }
        let net = net_braces_exec(line.as_slice());
        if depth > 0 {
            depth = depth + net;
        } else if is_cfg_select_start_exec(line.as_slice()) {
            depth = if net > 0 {
                net
            } else {
                0
            };
        } else {
            let ghost before = out@;
            push_chars_str(&mut out, line.as_slice());
            push_char(&mut out, '\n');
            proof {
                reveal_strlit("\n");
                assert(out@ =~= before + line@ + "\n"@);
                assert(before + (line@ + "\n"@ + cfg_strip_lines(rest, 0)) =~= out@ + cfg_strip_lines(rest, 0));
            }
            depth = 0;
        }
        start = next;
    }
    proof {
        assert(cs@.subrange(n as int, n as int) =~= Seq::<char>::empty());
        assert(out@ + Seq::<char>::empty() =~= out@);
    }
    out
}

fn push_chars_str(s: &mut String, cs: &[char])
    ensures
        final(s)@ == old(s)@ + cs@,
{
    crate::text::push_chars(s, cs);
}

// ---------------------------------------------------------------------------
// Splitting into top-level items
// ---------------------------------------------------------------------------

/// The state of the scan that splits a file into top-level items.
pub struct SplitState {
    pub items: Seq<Seq<char>>,
    pub current: Seq<char>,
    pub depth: int,
    pub in_string: bool,
    pub in_char: bool,
    pub in_line_comment: bool,
    pub in_block_comment: bool,
    pub prev: char,
}

pub open spec fn split_init() -> SplitState {
    SplitState {
        items: Seq::empty(),
        current: Seq::empty(),
        depth: 0,
        in_string: false,
        in_char: false,
        in_line_comment: false,
        in_block_comment: false,
        prev: '\0',
    }
}

/// One character of the scan: comments, string and character literals are
/// passed over; braces change the depth; a `}` that brings the depth back to
/// zero ends an item, which is kept trimmed if anything is left of it.
pub open spec fn split_step(st: SplitState, ch: char) -> SplitState {
    let cur = st.current.push(ch);
    let base = SplitState { current: cur, prev: ch, ..st };
    if st.in_line_comment {
        SplitState { in_line_comment: ch != '\n', ..base }
    } else if st.in_block_comment {
        SplitState { in_block_comment: !(st.prev == '*' && ch == '/'), ..base }
    } else if st.in_string {
        SplitState { in_string: !(ch == '"' && st.prev != '\\'), ..base }
    } else if st.in_char {
        SplitState { in_char: !(ch == '\'' && st.prev != '\\'), ..base }
    } else if ch == '/' && st.prev == '/' {
        SplitState { in_line_comment: true, ..base }
    } else if ch == '*' && st.prev == '/' {
        SplitState { in_block_comment: true, ..base }
    } else if ch == '"' {
        SplitState { in_string: true, ..base }
    } else if ch == '\'' {
        SplitState { in_char: true, ..base }
    } else if ch == '{' {
        SplitState { depth: st.depth + 1, ..base }
    } else if ch == '}' {
        if st.depth - 1 == 0 {
            let t = seq_trim(cur);
            SplitState {
                items: if t.len() > 0 { st.items.push(t) } else { st.items },
                current: Seq::empty(),
                depth: 0,
                ..base
            }
        } else {
            SplitState { depth: st.depth - 1, ..base }
        }
    } else {
        base
    }
}

pub open spec fn split_scan(cs: Seq<char>) -> SplitState
    decreases cs.len(),
{
    if cs.len() == 0 {
        split_init()
    } else {
        split_step(split_scan(cs.drop_last()), cs.last())
    }
}

/// The pieces of the text after the last item, each trimmed and closed with
/// `;`, the empty ones left out.
pub open spec fn trailing_items(parts: Seq<Seq<char>>) -> Seq<Seq<char>>
    decreases parts.len(),
{
    if parts.len() == 0 {
        Seq::empty()
    } else {
        let rest = trailing_items(parts.drop_last());
        let t = seq_trim(parts.last());
        if t.len() > 0 {
            rest.push(t + ";"@)
        } else {
            rest
        }
    }
}

/// The top-level items of `content`: each text up to a `}` that closes depth
/// zero, then the `;`-separated pieces of what is left.
pub open spec fn top_level_items(content: Seq<char>) -> Seq<Seq<char>> {
    let st = split_scan(content);
    let t = seq_trim(st.current);
    st.items + (if t.len() > 0 { trailing_items(seq_split(t, ';')) } else { Seq::empty() })
}

/// Splits source into top-level items by following the brace depth, passing
/// over comments and string and character literals.
pub fn split_top_level_items(content: &str) -> (res: Vec<String>)
    ensures
        views(res@) == top_level_items(content@),
{
    let cs = to_chars(content);
    let mut items: Vec<String> = Vec::new();
    let mut current: Vec<char> = Vec::new();
    let mut depth: i128 = 0;
    let mut in_string = false;
    let mut in_char = false;
    let mut in_line_comment = false;
    let mut in_block_comment = false;
    let mut prev: char = '\0';
    let mut i: usize = 0;
    while i < cs.len()
        invariant
            i <= cs@.len(),
            cs@ == content@,
            -(i as int) <= depth <= i,
            ({
                let st = split_scan(cs@.take(i as int));
                &&& views(items@) == st.items
                &&& current@ == st.current
                &&& depth == st.depth
                &&& in_string == st.in_string
                &&& in_char == st.in_char
                &&& in_line_comment == st.in_line_comment
                &&& in_block_comment == st.in_block_comment
                &&& prev == st.prev
            }),
        decreases cs@.len() - i,
    {
        let ch = cs[i];
        proof {
            assert(cs@.take(i + 1).drop_last() =~= cs@.take(i as int));
        }
        let ghost st = split_scan(cs@.take(i as int));
        current.push(ch);
        if in_line_comment {
            if ch == '\n' {
                in_line_comment = false;
            }
        } else if in_block_comment {
            if prev == '*' && ch == '/' {
                in_block_comment = false;
            }
        } else if in_string {
            if ch == '"' && prev != '\\' {
                in_string = false;
            }
        } else if in_char {
            if ch == '\'' && prev != '\\' {
                in_char = false;
            }
        } else if ch == '/' && prev == '/' {
            in_line_comment = true;
        } else if ch == '*' && prev == '/' {
            in_block_comment = true;
        } else if ch == '"' {
            in_string = true;
        } else if ch == '\'' {
            in_char = true;
        } else if ch == '{' {
            depth = depth + 1;
        } else if ch == '}' {
            depth = depth - 1;
            if depth == 0 {
                let t = trim(current.as_slice());
                if t.len() > 0 {
                    items.push(from_chars(t.as_slice()));
                    proof {
                        assert(views(items@) =~= st.items.push(seq_trim(st.current.push(ch))));
                    }
                }
                current = Vec::new();
            }
        }
        prev = ch;
        i += 1;
    }
    proof {
        assert(cs@.take(cs@.len() as int) =~= cs@);
    }
    let t = trim(current.as_slice());
    if t.len() > 0 {
        let parts = split_on(t.as_slice(), ';');
        let ghost ps = seq_split(t@, ';');
        let mut k: usize = 0;
        let ghost base = views(items@);
        while k < parts.len()
            invariant
                k <= parts@.len(),
                parts@.len() == ps.len(),
                forall|m: int| 0 <= m < parts@.len() ==> #[trigger] parts@[m]@ == ps[m],
                views(items@) == base + trailing_items(ps.take(k as int)),
            decreases parts@.len() - k,
        {
            proof {
                assert(ps.take(k + 1).drop_last() =~= ps.take(k as int));
                assert(ps.take(k + 1).last() == parts@[k as int]@);
            }
            let p = trim(parts[k].as_slice());
            if p.len() > 0 {
                let mut s = from_chars(p.as_slice());
                push_str(&mut s, ";");
                assert(s@ == p@ + ";"@);
                let ghost old_items = views(items@);
                items.push(s);
                proof {
                    assert(views(items@) =~= old_items.push(p@ + ";"@));
                    assert(views(items@) =~= base + trailing_items(ps.take(k as int)).push(p@ + ";"@));
                }
            }
            k += 1;
        }
        proof {
            assert(ps.take(ps.len() as int) =~= ps);
        }
    } else {
        proof {
            assert(views(items@) + Seq::<Seq<char>>::empty() =~= views(items@));
        }
    }
    items
}

// ---------------------------------------------------------------------------
// Item-level fallback and the tolerant parse
// ---------------------------------------------------------------------------

/// The code items of the chunks that `syn` accepts as one item each.
pub open spec fn individual_items(path: Seq<char>, chunks: Seq<Seq<char>>) -> Seq<CodeItemV>
    decreases chunks.len(),
{
    if chunks.len() == 0 {
        Seq::empty()
    } else {
        let rest = individual_items(path, chunks.drop_last());
        match syn_item(chunks.last()) {
            Some(r) => rest + items_of(path, seq![r]),
            None => rest,
        }
    }
}

/// What parsing each top-level item on its own gives: nothing when the text
/// has no items, else the items of the chunks that parse.
pub open spec fn parsed_individually(path: Seq<char>, content: Seq<char>) -> Option<Seq<CodeItemV>> {
    let chunks = top_level_items(content);
    if chunks.len() == 0 {
        None
    } else {
        Some(individual_items(path, chunks))
    }
}

proof fn lemma_views_append<T: View>(a: Seq<T>, b: Seq<T>)
    ensures
        views(a + b) == views(a) + views(b),
{
    assert(views(a + b) =~= views(a) + views(b));
}

/// Parses each top-level item of `content` on its own and keeps the code items
/// of those that parse.
pub fn parse_items_individually(path: &str, content: &str) -> (res: Option<Vec<CodeItem>>)
    ensures
        match res {
            Some(items) => parsed_individually(path@, content@) == Some(views(items@)),
            None => parsed_individually(path@, content@) is None,
        },
{
    let chunks = split_top_level_items(content);
    if chunks.len() == 0 {
        return None;
    }
    let ghost cv = views(chunks@);
    let mut all: Vec<CodeItem> = Vec::new();
    let mut i: usize = 0;
    while i < chunks.len()
        invariant
            i <= chunks@.len(),
            cv == views(chunks@),
            views(all@) == individual_items(path@, cv.take(i as int)),
        decreases chunks@.len() - i,
    {
        proof {
            assert(cv.take(i + 1).drop_last() =~= cv.take(i as int));
            assert(cv.take(i + 1).last() == chunks@[i as int]@);
        }
        match parse_syn_item(chunks[i].as_str()) {
            Some(raw) => {
                let one = vec![raw];
                let mut items = extract_items(&one, path);
                proof {
                    assert(views(one@) =~= seq![raw@]);
                    lemma_views_append(all@, items@);
                }
                all.append(&mut items);
            },
            None => {},
        }
        i += 1;
    }
    proof {
        assert(cv.take(cv.len() as int) =~= cv);
    }
    Some(all)
}

/// What the tolerant parse gives: the first of the rewritten texts that `syn`
/// accepts (each rewrite tried only when it changed the text), else the items
/// found one by one if there are any, else the error on the original text.
pub open spec fn parsed_tolerantly(path: Seq<char>, content: Seq<char>) -> Result<Seq<CodeItemV>, Seq<char>> {
    let s1 = filtered_lines(LineRule::FeatureGates, content);
    let s2 = cfg_select_stripped(s1);
    let s3 = seq_replace(s2, "unsafe extern"@, "extern"@);
    let s4 = filtered_lines(LineRule::InnerAttributes, s3);
    if parsed(path, content) is Ok {
        parsed(path, content)
    } else if parsed(path, s1) is Ok {
        parsed(path, s1)
    } else if s2 != s1 && parsed(path, s2) is Ok {
        parsed(path, s2)
    } else if s3 != s2 && parsed(path, s3) is Ok {
        parsed(path, s3)
    } else if s4 != s3 && parsed(path, s4) is Ok {
        parsed(path, s4)
    } else {
        match parsed_individually(path, s4) {
            Some(items) => if items.len() > 0 {
                Ok(items)
            } else {
                parsed(path, content)
            },
            None => parsed(path, content),
        }
    }
}

/// Parses a file, falling back step by step for syntax that `syn` does not
/// take (nightly features, `cfg_select!`, edition 2024 `unsafe extern`,
/// inner attributes), and at last item by item.
pub fn parse_file_tolerant(path: &str, content: &str) -> (res: Result<Vec<CodeItem>, String>)
    ensures
        result_view(res) == parsed_tolerantly(path@, content@),
{
    let r0 = parse_file(path, content);
    if r0.is_ok() {
        return r0;
    }
    let s1 = filter_lines(content, LineRule::FeatureGates);
    let r1 = parse_file(path, s1.as_str());
    if r1.is_ok() {
        return r1;
    }
    let s2 = strip_cfg_select_blocks(s1.as_str());
    if !(s2 == s1) {
        let r2 = parse_file(path, s2.as_str());
        if r2.is_ok() {
            return r2;
        }
    }
    let c2 = to_chars(s2.as_str());
    let pat = to_chars("unsafe extern");
    let rep = to_chars("extern");
    proof {
        reveal_strlit("unsafe extern");
    }
    let s3 = from_chars(replace(c2.as_slice(), pat.as_slice(), rep.as_slice()).as_slice());
    if !(s3 == s2) {
        let r3 = parse_file(path, s3.as_str());
        if r3.is_ok() {
            return r3;
        }
    }
    let s4 = strip_inner_attributes(s3.as_str());
    if !(s4 == s3) {
        let r4 = parse_file(path, s4.as_str());
        if r4.is_ok() {
            return r4;
        }
    }
    match parse_items_individually(path, s4.as_str()) {
        Some(items) => {
            if items.len() > 0 {
                return Ok(items);
            }
        },
        None => {},
    }
    parse_file(path, content)
}

} // verus!
