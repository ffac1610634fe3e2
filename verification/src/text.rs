//! Text primitives over character sequences: search, prefixes and suffixes,
//! whitespace trimming, line splitting, decimal rendering and UTF-8 widths.
//!
//! Strings are modelled by their view, a `Seq<char>`. The executable helpers
//! work on `Vec<char>` and `String` and are proved against the spec functions
//! of this module.
use vstd::prelude::*;

verus! {

// ---------------------------------------------------------------------------
// Specifications
// ---------------------------------------------------------------------------

/// `p` occurs in `s` starting at position `i`.
pub open spec fn matches_at(s: Seq<char>, p: Seq<char>, i: int) -> bool {
    0 <= i && i + p.len() <= s.len() && s.subrange(i, i + p.len()) == p
}

/// `p` occurs somewhere in `s`.
pub open spec fn seq_contains(s: Seq<char>, p: Seq<char>) -> bool {
    exists|i: int| matches_at(s, p, i)
}

/// The first position at or after `i` where `p` occurs in `s`.
pub open spec fn find_from(s: Seq<char>, p: Seq<char>, i: int) -> Option<int>
    decreases s.len() + 1 - i,
{
    if i < 0 || i + p.len() > s.len() {
        None
    } else if matches_at(s, p, i) {
        Some(i)
    } else {
        find_from(s, p, i + 1)
    }
}

/// The first position where `p` occurs in `s`.
pub open spec fn seq_find(s: Seq<char>, p: Seq<char>) -> Option<int> {
    find_from(s, p, 0)
}

/// The last position at or before `i` where `p` occurs in `s`.
pub open spec fn rfind_upto(s: Seq<char>, p: Seq<char>, i: int) -> Option<int>
    decreases i + 1,
{
    if i < 0 {
        None
    } else if matches_at(s, p, i) {
        Some(i)
    } else {
        rfind_upto(s, p, i - 1)
    }
}

/// The last position where `p` occurs in `s`.
pub open spec fn seq_rfind(s: Seq<char>, p: Seq<char>) -> Option<int> {
    rfind_upto(s, p, s.len() - p.len())
}

pub open spec fn seq_starts_with(s: Seq<char>, p: Seq<char>) -> bool {
    p.len() <= s.len() && s.subrange(0, p.len() as int) == p
}

pub open spec fn seq_ends_with(s: Seq<char>, p: Seq<char>) -> bool {
    p.len() <= s.len() && s.subrange(s.len() - p.len(), s.len() as int) == p
}

/// The Unicode `White_Space` property, which `char::is_whitespace` tests.
pub open spec fn is_ws(c: char) -> bool {
    let v = c as u32;
    (0x9 <= v && v <= 0xd) || v == 0x20 || v == 0x85 || v == 0xa0 || v == 0x1680 || (0x2000 <= v
        && v <= 0x200a) || v == 0x2028 || v == 0x2029 || v == 0x202f || v == 0x205f || v == 0x3000
}

/// Number of leading whitespace characters of `s`.
pub open spec fn ws_prefix_len(s: Seq<char>) -> nat
    decreases s.len(),
{
    if s.len() == 0 || !is_ws(s[0]) {
        0
    } else {
        1 + ws_prefix_len(s.subrange(1, s.len() as int))
    }
}

/// Number of trailing whitespace characters of `s`.
pub open spec fn ws_suffix_len(s: Seq<char>) -> nat
    decreases s.len(),
{
    if s.len() == 0 || !is_ws(s[s.len() - 1]) {
        0
    } else {
        1 + ws_suffix_len(s.subrange(0, s.len() - 1))
    }
}

pub open spec fn seq_trim_start(s: Seq<char>) -> Seq<char> {
    s.subrange(ws_prefix_len(s) as int, s.len() as int)
}

pub open spec fn seq_trim_end(s: Seq<char>) -> Seq<char> {
    s.subrange(0, s.len() - ws_suffix_len(s))
}

/// What `str::trim` gives back.
pub open spec fn seq_trim(s: Seq<char>) -> Seq<char> {
    seq_trim_end(seq_trim_start(s))
}

/// The position of the first `'\n'` in `s`, if any.
pub open spec fn newline_pos(s: Seq<char>) -> Option<int> {
    seq_find(s, seq!['\n'])
}

/// One line as `str::lines` yields it: the text before a `'\n'`, with one
/// `'\r'` removed from its end when the line was ended by `"\r\n"`.
pub open spec fn strip_cr(line: Seq<char>) -> Seq<char> {
    if line.len() > 0 && line[line.len() - 1] == '\r' {
        line.subrange(0, line.len() - 1)
    } else {
        line
    }
}

/// What `str::lines` yields: the text split at each `'\n'`, with `"\r\n"`
/// counted as one line ending, and no empty last line after a final `'\n'`.
pub open spec fn seq_lines(s: Seq<char>) -> Seq<Seq<char>>
    decreases s.len(),
{
    if s.len() == 0 {
        Seq::empty()
    } else {
        match newline_pos(s) {
            Some(j) => {
                if 0 <= j < s.len() {
                    seq![strip_cr(s.subrange(0, j))] + seq_lines(s.subrange(j + 1, s.len() as int))
                } else {
                    Seq::empty()
                }
            },
            None => seq![s],
        }
    }
}

/// The parts joined with `sep` between each two of them.
pub open spec fn seq_join(parts: Seq<Seq<char>>, sep: Seq<char>) -> Seq<char>
    decreases parts.len(),
{
    if parts.len() == 0 {
        Seq::empty()
    } else if parts.len() == 1 {
        parts[0]
    } else {
        seq_join(parts.drop_last(), sep) + sep + parts.last()
    }
}

/// The decimal digits of `n`, as `usize::to_string` renders them.
pub open spec fn decimal(n: nat) -> Seq<char>
    decreases n,
{
    if n < 10 {
        seq![digit_char(n)]
    } else {
        decimal(n / 10).push(digit_char(n % 10))
    }
}

pub open spec fn digit_char(d: nat) -> char {
    if d == 0 {
        '0'
    } else if d == 1 {
        '1'
    } else if d == 2 {
        '2'
    } else if d == 3 {
        '3'
    } else if d == 4 {
        '4'
    } else if d == 5 {
        '5'
    } else if d == 6 {
        '6'
    } else if d == 7 {
        '7'
    } else if d == 8 {
        '8'
    } else {
        '9'
    }
}

/// Number of bytes of the UTF-8 encoding of `c`.
pub open spec fn utf8_width(c: char) -> nat {
    let v = c as u32;
    if v < 0x80 {
        1
    } else if v < 0x800 {
        2
    } else if v < 0x10000 {
        3
    } else {
        4
    }
}

/// Number of bytes of the UTF-8 encoding of `s`, which `str::len` returns.
pub open spec fn byte_len(s: Seq<char>) -> nat
    decreases s.len(),
{
    if s.len() == 0 {
        0
    } else {
        byte_len(s.drop_last()) + utf8_width(s.last())
    }
}

/// The longest prefix of `s` whose encoding takes at most `max` bytes.
pub open spec fn prefix_within(s: Seq<char>, max: nat) -> Seq<char> {
    s.take(prefix_count(s, max) as int)
}

/// Number of characters of the longest prefix of `s` within `max` bytes.
pub open spec fn prefix_count(s: Seq<char>, max: nat) -> nat
    decreases s.len(),
{
    if s.len() == 0 {
        0
    } else if utf8_width(s[0]) > max {
        0
    } else {
        1 + prefix_count(s.subrange(1, s.len() as int), (max - utf8_width(s[0])) as nat)
    }
}

// ---------------------------------------------------------------------------
// Lemmas
// ---------------------------------------------------------------------------

pub proof fn lemma_find_from(s: Seq<char>, p: Seq<char>, i: int)
    requires
        0 <= i,
    ensures
        match find_from(s, p, i) {
            Some(j) => i <= j && matches_at(s, p, j) && forall|k: int|
                i <= k < j ==> !matches_at(s, p, k),
            None => forall|k: int| i <= k ==> !matches_at(s, p, k),
        },
    decreases s.len() + 1 - i,
{
    if i + p.len() > s.len() {
    } else if matches_at(s, p, i) {
    } else {
        lemma_find_from(s, p, i + 1);
    }
}

pub proof fn lemma_rfind_upto(s: Seq<char>, p: Seq<char>, i: int)
    ensures
        match rfind_upto(s, p, i) {
            Some(j) => j <= i && matches_at(s, p, j) && forall|k: int|
                j < k <= i ==> !matches_at(s, p, k),
            None => forall|k: int| k <= i ==> !matches_at(s, p, k),
        },
    decreases i + 1,
{
    if i < 0 {
    } else if matches_at(s, p, i) {
    } else {
        lemma_rfind_upto(s, p, i - 1);
    }
}

// ---------------------------------------------------------------------------
// Executable helpers
// ---------------------------------------------------------------------------

/// The characters of a string slice, in order.
pub fn to_chars(s: &str) -> (res: Vec<char>)
    ensures
        res@ == s@,
{
    let mut res: Vec<char> = Vec::new();
    for c in it: s.chars()
        invariant
            res@ == it.seq().take(it.index() as int),
    {
        res.push(c);
    }
    res
}

/// `String::push`: appends one character.
#[verifier::external_body]
pub(crate) fn push_char(s: &mut String, c: char)
    ensures
        final(s)@ == old(s)@.push(c),
{
    s.push(c);
}

/// Appends characters to a `String`.
pub fn push_chars(s: &mut String, cs: &[char])
    ensures
        final(s)@ == old(s)@ + cs@,
{
    let mut i: usize = 0;
    while i < cs.len()
        invariant
            i <= cs@.len(),
            s@ == old(s)@ + cs@.take(i as int),
        decreases cs@.len() - i,
    {
        push_char(s, cs[i]);
        i += 1;
        assert(cs@.take(i as int) == cs@.take(i - 1 as int).push(cs@[i - 1]));
    }
    assert(cs@.take(cs@.len() as int) == cs@);
}

/// Appends a string slice to a `String`.
pub fn push_str(s: &mut String, t: &str)
    ensures
        final(s)@ == old(s)@ + t@,
{
    s.append(t);
}

/// A `String` holding the given characters.
pub fn from_chars(cs: &[char]) -> (res: String)
    ensures
        res@ == cs@,
{
    let mut s = String::new();
    push_chars(&mut s, cs);
    s
}

/// Whether `p` occurs in `s` at position `i`.
pub fn matches_at_exec(s: &[char], p: &[char], i: usize) -> (res: bool)
    ensures
        res == matches_at(s@, p@, i as int),
{
    if i > s.len() || p.len() > s.len() - i {
        return false;
    }
    let mut k: usize = 0;
    while k < p.len()
        invariant
            i + p@.len() <= s@.len(),
            i + p.len() <= s.len(),
            k <= p@.len(),
            forall|m: int| 0 <= m < k ==> s@[i + m] == p@[m],
        decreases p@.len() - k,
    {
        if s[i + k] != p[k] {
            assert(s@.subrange(i as int, i + p@.len())[k as int] != p@[k as int]);
            return false;
        }
        k += 1;
    }
    assert(s@.subrange(i as int, i + p@.len()) =~= p@);
    true
}

/// The first position at or after `from` where `p` occurs in `s`.
pub fn find_from_exec(s: &[char], p: &[char], from: usize) -> (res: Option<usize>)
    ensures
        match res {
            Some(j) => find_from(s@, p@, from as int) == Some(j as int),
            None => find_from(s@, p@, from as int) is None,
        },
{
    let mut i = from;
    while i <= s.len() && p.len() <= s.len() - i
        invariant
            from <= i,
            find_from(s@, p@, from as int) == find_from(s@, p@, i as int),
        decreases s@.len() + 1 - i,
    {
        if matches_at_exec(s, p, i) {
            return Some(i);
        }
        if i == s.len() {
            assert(find_from(s@, p@, i + 1) is None);
            return None;
        }
        i += 1;
    }
    None
}

/// The first position where `p` occurs in `s`.
pub fn find(s: &[char], p: &[char]) -> (res: Option<usize>)
    ensures
        match res {
            Some(j) => seq_find(s@, p@) == Some(j as int),
            None => seq_find(s@, p@) is None,
        },
{
    find_from_exec(s, p, 0)
}

/// Whether `p` occurs in `s`.
pub fn contains(s: &[char], p: &[char]) -> (res: bool)
    ensures
        res == seq_contains(s@, p@),
{
    proof {
        lemma_find_from(s@, p@, 0);
    }
    find(s, p).is_some()
}

/// Whether the string slice `p` occurs in `s`.
pub fn contains_str(s: &[char], p: &str) -> (res: bool)
    ensures
        res == seq_contains(s@, p@),
{
    let pc = to_chars(p);
    contains(s, pc.as_slice())
}

/// The last position where `p` occurs in `s`.
pub fn rfind(s: &[char], p: &[char]) -> (res: Option<usize>)
    ensures
        match res {
            Some(j) => seq_rfind(s@, p@) == Some(j as int),
            None => seq_rfind(s@, p@) is None,
        },
{
    if p.len() > s.len() {
        return None;
    }
    let mut i = s.len() - p.len();
    loop
        invariant
            i <= s@.len() - p@.len(),
            p@.len() <= s@.len(),
            seq_rfind(s@, p@) == rfind_upto(s@, p@, i as int),
        decreases i,
    {
        if matches_at_exec(s, p, i) {
            return Some(i);
        }
        if i == 0 {
            assert(rfind_upto(s@, p@, -1) is None);
            return None;
        }
        i -= 1;
    }
}

pub fn starts_with(s: &[char], p: &[char]) -> (res: bool)
    ensures
        res == seq_starts_with(s@, p@),
{
    matches_at_exec(s, p, 0)
}

pub fn starts_with_str(s: &[char], p: &str) -> (res: bool)
    ensures
        res == seq_starts_with(s@, p@),
{
    let pc = to_chars(p);
    starts_with(s, pc.as_slice())
}

pub fn ends_with(s: &[char], p: &[char]) -> (res: bool)
    ensures
        res == seq_ends_with(s@, p@),
{
    if p.len() > s.len() {
        return false;
    }
    matches_at_exec(s, p, s.len() - p.len())
}

pub fn ends_with_str(s: &[char], p: &str) -> (res: bool)
    ensures
        res == seq_ends_with(s@, p@),
{
    let pc = to_chars(p);
    ends_with(s, pc.as_slice())
}

/// `char::is_whitespace`.
pub fn is_whitespace(c: char) -> (res: bool)
    ensures
        res == is_ws(c),
{
    let v = c as u32;
    (0x9 <= v && v <= 0xd) || v == 0x20 || v == 0x85 || v == 0xa0 || v == 0x1680 || (0x2000 <= v
        && v <= 0x200a) || v == 0x2028 || v == 0x2029 || v == 0x202f || v == 0x205f || v == 0x3000
}

proof fn lemma_ws_prefix(s: Seq<char>, i: int)
    requires
        0 <= i <= s.len(),
        forall|k: int| 0 <= k < i ==> is_ws(s[k]),
    ensures
        ws_prefix_len(s) == i + ws_prefix_len(s.subrange(i, s.len() as int)),
    decreases i,
{
    if i > 0 {
        let t = s.subrange(1, s.len() as int);
        lemma_ws_prefix(t, i - 1);
        assert(t.subrange(i - 1, t.len() as int) =~= s.subrange(i, s.len() as int));
    } else {
        assert(s.subrange(0, s.len() as int) =~= s);
    }
}

proof fn lemma_ws_suffix(s: Seq<char>, i: int)
    requires
        0 <= i <= s.len(),
        forall|k: int| s.len() - i <= k < s.len() ==> is_ws(s[k]),
    ensures
        ws_suffix_len(s) == i + ws_suffix_len(s.subrange(0, s.len() - i)),
    decreases i,
{
    if i > 0 {
        let t = s.subrange(0, s.len() - 1);
        lemma_ws_suffix(t, i - 1);
        assert(t.subrange(0, t.len() - (i - 1)) =~= s.subrange(0, s.len() - i));
    } else {
        assert(s.subrange(0, s.len() as int) =~= s);
    }
}

/// The bounds `(start, end)` of `s` with surrounding whitespace removed.
pub fn trim_bounds(s: &[char]) -> (res: (usize, usize))
    ensures
        res.0 <= res.1 <= s@.len(),
        s@.subrange(res.0 as int, res.1 as int) == seq_trim(s@),
{
    let mut a: usize = 0;
    while a < s.len() && is_whitespace(s[a])
        invariant
            a <= s@.len(),
            forall|k: int| 0 <= k < a ==> is_ws(s@[k]),
        decreases s@.len() - a,
    {
        a += 1;
    }
    proof {
        lemma_ws_prefix(s@, a as int);
        let t = s@.subrange(a as int, s@.len() as int);
        if t.len() > 0 {
            assert(t[0] == s@[a as int]);
        }
    }
    let ghost t = s@.subrange(a as int, s@.len() as int);
    assert(seq_trim_start(s@) == t);
    let mut b: usize = s.len();
    while b > a && is_whitespace(s[b - 1])
        invariant
            a <= b <= s@.len(),
            t == s@.subrange(a as int, s@.len() as int),
            forall|k: int| b <= k < s@.len() ==> is_ws(s@[k]),
        decreases b,
    {
        b -= 1;
    }
    proof {
        let n = (s@.len() - b) as int;
        lemma_ws_suffix(t, n);
        let u = t.subrange(0, t.len() - n);
        if u.len() > 0 {
            assert(u[u.len() - 1] == s@[b - 1]);
        }
        assert(u =~= s@.subrange(a as int, b as int));
    }
    (a, b)
}

/// `str::trim` on a character sequence.
pub fn trim(s: &[char]) -> (res: Vec<char>)
    ensures
        res@ == seq_trim(s@),
{
    let (a, b) = trim_bounds(s);
    slice_range(s, a, b)
}

/// A copy of `s[a..b]`.
pub fn slice_range(s: &[char], a: usize, b: usize) -> (res: Vec<char>)
    requires
        a <= b <= s@.len(),
    ensures
        res@ == s@.subrange(a as int, b as int),
{
    let mut res: Vec<char> = Vec::new();
    let mut i = a;
    while i < b
        invariant
            a <= i <= b <= s@.len(),
            res@ == s@.subrange(a as int, i as int),
        decreases b - i,
    {
        res.push(s[i]);
        i += 1;
        assert(res@ =~= s@.subrange(a as int, i as int));
    }
    res
}

proof fn lemma_newline_at(s: Seq<char>, j: int)
    requires
        0 <= j < s.len(),
        s[j] == '\n',
        forall|k: int| 0 <= k < j ==> s[k] != '\n',
    ensures
        newline_pos(s) == Some(j),
{
    lemma_find_from(s, seq!['\n'], 0);
    assert(s.subrange(j, j + 1) =~= seq!['\n']);
    assert(matches_at(s, seq!['\n'], j));
    match newline_pos(s) {
        Some(m) => {
            if m < j {
                assert(s.subrange(m, m + 1)[0] == s[m]);
            }
        },
        None => {},
    }
}

/// The first position of `'\n'` in `s` at or after `from`, if any.
pub fn find_newline(s: &[char], from: usize) -> (res: Option<usize>)
    requires
        from <= s@.len(),
    ensures
        match res {
            Some(j) => from <= j < s@.len() && s@[j as int] == '\n' && forall|k: int|
                from <= k < j ==> s@[k] != '\n',
            None => forall|k: int| from <= k < s@.len() ==> s@[k] != '\n',
        },
{
    let mut i = from;
    while i < s.len()
        invariant
            from <= i <= s@.len(),
            forall|k: int| from <= k < i ==> s@[k] != '\n',
        decreases s@.len() - i,
    {
        if s[i] == '\n' {
            return Some(i);
        }
        i += 1;
    }
    None
}

pub proof fn lemma_lines_step(s: Seq<char>, start: int, j: int)
    requires
        0 <= start <= j < s.len(),
        s[j] == '\n',
        forall|k: int| start <= k < j ==> s[k] != '\n',
    ensures
        seq_lines(s.subrange(start, s.len() as int)) == seq![
            strip_cr(s.subrange(start, j)),
        ] + seq_lines(s.subrange(j + 1, s.len() as int)),
{
    let t = s.subrange(start, s.len() as int);
    lemma_newline_at(t, j - start);
    assert(t.subrange(0, j - start) =~= s.subrange(start, j));
    assert(t.subrange(j - start + 1, t.len() as int) =~= s.subrange(j + 1, s.len() as int));
}

pub proof fn lemma_lines_last(s: Seq<char>, start: int)
    requires
        0 <= start <= s.len(),
        forall|k: int| start <= k < s.len() ==> s[k] != '\n',
    ensures
        seq_lines(s.subrange(start, s.len() as int)) == (if start == s.len() {
            Seq::<Seq<char>>::empty()
        } else {
            seq![s.subrange(start, s.len() as int)]
        }),
{
    let t = s.subrange(start, s.len() as int);
    if t.len() > 0 {
        lemma_find_from(t, seq!['\n'], 0);
        match newline_pos(t) {
            Some(m) => {
                assert(t.subrange(m, m + 1)[0] == t[m]);
            },
            None => {},
        }
    }
}

/// `str::lines` on a character sequence.
pub fn split_lines(s: &[char]) -> (res: Vec<Vec<char>>)
    ensures
        res@.len() == seq_lines(s@).len(),
        forall|i: int| 0 <= i < res@.len() ==> #[trigger] res@[i]@ == seq_lines(s@)[i],
{
    let mut res: Vec<Vec<char>> = Vec::new();
    let mut start: usize = 0;
    let ghost mut done: Seq<Seq<char>> = Seq::empty();
    assert(s@.subrange(0, s@.len() as int) =~= s@);
    assert(Seq::<Seq<char>>::empty() + seq_lines(s@) =~= seq_lines(s@));
    while start < s.len()
        invariant
            start <= s@.len(),
            res@.len() == done.len(),
            forall|i: int| 0 <= i < res@.len() ==> #[trigger] res@[i]@ == done[i],
            seq_lines(s@) == done + seq_lines(s@.subrange(start as int, s@.len() as int)),
        decreases s@.len() - start,
    {
        match find_newline(s, start) {
            Some(j) => {
                proof {
                    lemma_lines_step(s@, start as int, j as int);
                }
                let mut end = j;
                if end > start && s[end - 1] == '\r' {
                    end = end - 1;
                }
                let line = slice_range(s, start, end);
                proof {
                    assert(line@ == strip_cr(s@.subrange(start as int, j as int)));
                    assert(done + seq![strip_cr(s@.subrange(start as int, j as int))]
                        + seq_lines(s@.subrange(j + 1, s@.len() as int)) =~= done + (seq![
                        strip_cr(s@.subrange(start as int, j as int)),
                    ] + seq_lines(s@.subrange(j + 1, s@.len() as int))));
                    done = done.push(line@);
                }
                res.push(line);
                start = j + 1;
            },
            None => {
                proof {
                    lemma_lines_last(s@, start as int);
                }
                let line = slice_range(s, start, s.len());
                proof {
                    done = done.push(line@);
                }
                res.push(line);
                start = s.len();
                proof {
                    lemma_lines_last(s@, start as int);
                }
            },
        }
    }
    proof {
        lemma_lines_last(s@, start as int);
        assert(done + Seq::<Seq<char>>::empty() =~= done);
    }
    res
}

/// The digits of `n` in decimal.
pub fn decimal_chars(n: usize) -> (res: Vec<char>)
    ensures
        res@ == decimal(n as nat),
    decreases n,
{
    if n < 10 {
        let mut v = Vec::new();
        v.push(digit(n));
        v
    } else {
        let mut v = decimal_chars(n / 10);
        v.push(digit(n % 10));
        v
    }
}

fn digit(d: usize) -> (c: char)
    requires
        d < 10,
    ensures
        c == digit_char(d as nat),
{
    if d == 0 {
        '0'
    } else if d == 1 {
        '1'
    } else if d == 2 {
        '2'
    } else if d == 3 {
        '3'
    } else if d == 4 {
        '4'
    } else if d == 5 {
        '5'
    } else if d == 6 {
        '6'
    } else if d == 7 {
        '7'
    } else if d == 8 {
        '8'
    } else {
        '9'
    }
}

/// `n.to_string()` for a `usize`.
pub fn usize_to_string(n: usize) -> (res: String)
    ensures
        res@ == decimal(n as nat),
{
    let v = decimal_chars(n);
    from_chars(v.as_slice())
}

pub fn char_utf8_width(c: char) -> (w: usize)
    ensures
        w == utf8_width(c),
{
    let v = c as u32;
    if v < 0x80 {
        1
    } else if v < 0x800 {
        2
    } else if v < 0x10000 {
        3
    } else {
        4
    }
}

proof fn lemma_byte_len_push(s: Seq<char>, c: char)
    ensures
        byte_len(s.push(c)) == byte_len(s) + utf8_width(c),
{
    assert(s.push(c).drop_last() =~= s);
}

/// Whether the UTF-8 encoding of `s` takes at most `max` bytes.
pub fn byte_len_at_most(s: &[char], max: usize) -> (res: bool)
    ensures
        res == (byte_len(s@) <= max),
{
    let mut i: usize = 0;
    let mut acc: usize = 0;
    while i < s.len()
        invariant
            i <= s@.len(),
            acc == byte_len(s@.take(i as int)),
            acc <= max,
        decreases s@.len() - i,
    {
        let w = char_utf8_width(s[i]);
        proof {
            lemma_byte_len_push(s@.take(i as int), s@[i as int]);
            assert(s@.take(i as int).push(s@[i as int]) =~= s@.take(i + 1));
        }
        if w > max - acc {
            proof {
                lemma_byte_len_prefix_mono(s@, i + 1);
            }
            return false;
        }
        acc = acc + w;
        i += 1;
    }
    assert(s@.take(s@.len() as int) =~= s@);
    true
}

/// The encoding of two texts one after the other is as long as both.
/// Text of ASCII characters takes one byte per character.
pub proof fn lemma_byte_len_ascii(s: Seq<char>)
    requires
        forall|i: int| 0 <= i < s.len() ==> (#[trigger] s[i] as u32) < 0x80,
    ensures
        byte_len(s) == s.len(),
    decreases s.len(),
{
    if s.len() > 0 {
        assert forall|i: int| 0 <= i < s.drop_last().len() implies (#[trigger] s.drop_last()[i] as u32) < 0x80 by {
            assert(s.drop_last()[i] == s[i]);
        }
        lemma_byte_len_ascii(s.drop_last());
        assert((s[s.len() - 1] as u32) < 0x80);
    }
}

pub proof fn lemma_byte_len_concat(a: Seq<char>, b: Seq<char>)
    ensures
        byte_len(a + b) == byte_len(a) + byte_len(b),
    decreases b.len(),
{
    if b.len() == 0 {
        assert(a + b =~= a);
    } else {
        lemma_byte_len_concat(a, b.drop_last());
        assert((a + b).drop_last() =~= a + b.drop_last());
    }
}

/// The longest prefix within `max` bytes takes at most `max` bytes.
pub proof fn lemma_prefix_within_bound(s: Seq<char>, max: nat)
    ensures
        byte_len(prefix_within(s, max)) <= max,
    decreases s.len(),
{
    if s.len() > 0 && utf8_width(s[0]) <= max {
        let rest = s.subrange(1, s.len() as int);
        let m2 = (max - utf8_width(s[0])) as nat;
        lemma_prefix_within_bound(rest, m2);
        let k = prefix_count(rest, m2);
        lemma_prefix_count_le(rest, m2);
        assert(s.take(k + 1 as int) =~= seq![s[0]] + rest.take(k as int));
        lemma_byte_len_concat(seq![s[0]], rest.take(k as int));
        lemma_byte_len_push(Seq::<char>::empty(), s[0]);
        assert(Seq::<char>::empty().push(s[0]) =~= seq![s[0]]);
        assert(prefix_count(s, max) == 1 + k);
        assert(prefix_within(s, max) == s.take(k + 1 as int));
        assert(byte_len(rest.take(k as int)) <= m2);
    } else {
        assert(prefix_within(s, max) =~= Seq::<char>::empty());
    }
}

proof fn lemma_prefix_count_le(s: Seq<char>, max: nat)
    ensures
        prefix_count(s, max) <= s.len(),
    decreases s.len(),
{
    if s.len() > 0 && utf8_width(s[0]) <= max {
        lemma_prefix_count_le(s.subrange(1, s.len() as int), (max - utf8_width(s[0])) as nat);
    }
}

pub proof fn lemma_byte_len_prefix_mono(s: Seq<char>, i: int)
    requires
        0 <= i <= s.len(),
    ensures
        byte_len(s.take(i)) <= byte_len(s),
    decreases s.len() - i,
{
    if i < s.len() {
        lemma_byte_len_prefix_mono(s, i + 1);
        lemma_byte_len_push(s.take(i), s[i]);
        assert(s.take(i).push(s[i]) =~= s.take(i + 1));
    } else {
        assert(s.take(i) =~= s);
    }
}

/// Whether two character slices are equal.
pub fn chars_eq(a: &[char], b: &[char]) -> (res: bool)
    ensures
        res == (a@ == b@),
{
    if a.len() != b.len() {
        return false;
    }
    let mut i: usize = 0;
    while i < a.len()
        invariant
            a@.len() == b@.len(),
            i <= a@.len(),
            forall|k: int| 0 <= k < i ==> a@[k] == b@[k],
        decreases a@.len() - i,
    {
        if a[i] != b[i] {
            return false;
        }
        i += 1;
    }
    assert(a@ =~= b@);
    true
}

/// Whether two string slices hold the same characters.
pub fn str_eq(a: &str, b: &str) -> (res: bool)
    ensures
        res == (a@ == b@),
{
    let x = to_chars(a);
    let y = to_chars(b);
    chars_eq(x.as_slice(), y.as_slice())
}

/// The parts joined with `sep` between each two of them (`[String]::join`).
pub fn join(parts: &Vec<String>, sep: &str) -> (res: String)
    ensures
        res@ == seq_join(crate::dup::views(parts@), sep@),
{
    let mut res = String::new();
    let mut i: usize = 0;
    while i < parts.len()
        invariant
            i <= parts@.len(),
            res@ == seq_join(crate::dup::views(parts@).take(i as int), sep@),
        decreases parts@.len() - i,
    {
        let ghost before = res@;
        if i > 0 {
            push_str(&mut res, sep);
        }
        push_str(&mut res, parts[i].as_str());
        proof {
            let vs = crate::dup::views(parts@);
            assert(vs.take(i + 1).drop_last() =~= vs.take(i as int));
            assert(vs.take(i + 1).last() == parts@[i as int]@);
            if i == 0 {
                assert(vs.take(1) =~= seq![parts@[0]@]);
                assert(before =~= Seq::<char>::empty());
                assert(res@ =~= parts@[0]@);
            } else {
                assert(res@ =~= before + sep@ + parts@[i as int]@);
            }
        }
        i += 1;
    }
    assert(crate::dup::views(parts@).take(parts@.len() as int) =~= crate::dup::views(parts@));
    res
}

// ---------------------------------------------------------------------------
// Replacing, splitting, lines as strings
// ---------------------------------------------------------------------------

/// `str::replace`: every occurrence of `pat`, found from left to right and
/// without overlap, replaced by `rep` (for a non-empty `pat`).
pub open spec fn seq_replace(s: Seq<char>, pat: Seq<char>, rep: Seq<char>) -> Seq<char>
    decreases s.len(),
{
    if pat.len() == 0 {
        s
    } else {
        match seq_find(s, pat) {
            Some(i) => if 0 <= i && i + pat.len() <= s.len() {
                s.take(i) + rep + seq_replace(s.skip(i + pat.len()), pat, rep)
            } else {
                s
            },
            None => s,
        }
    }
}

/// `str::split` on one character: the pieces between the occurrences of `c`.
pub open spec fn seq_split(s: Seq<char>, c: char) -> Seq<Seq<char>>
    decreases s.len(),
{
    match seq_find(s, seq![c]) {
        Some(i) => if 0 <= i < s.len() {
            seq![s.take(i)] + seq_split(s.skip(i + 1), c)
        } else {
            seq![s]
        },
        None => seq![s],
    }
}

/// Searching from `pos` in `s` is searching the rest of `s` after `pos`.
pub proof fn lemma_find_skip(s: Seq<char>, p: Seq<char>, pos: int)
    requires
        0 <= pos <= s.len(),
    ensures
        match find_from(s, p, pos) {
            Some(j) => seq_find(s.skip(pos), p) == Some(j - pos),
            None => seq_find(s.skip(pos), p) is None,
        },
{
    let t = s.skip(pos);
    lemma_find_from(s, p, pos);
    lemma_find_from(t, p, 0);
    assert forall|k: int| 0 <= k implies #[trigger] matches_at(t, p, k) == matches_at(s, p, k + pos) by {
        if k + p.len() <= t.len() {
            assert(t.subrange(k, k + p.len()) =~= s.subrange(k + pos, k + pos + p.len()));
        }
    }
    match find_from(s, p, pos) {
        Some(j) => {
            assert(matches_at(t, p, j - pos));
            match seq_find(t, p) {
                Some(m) => {
                    if m < j - pos {
                        assert(matches_at(s, p, m + pos));
                    }
                },
                None => {},
            }
        },
        None => {
            match seq_find(t, p) {
                Some(m) => {
                    assert(matches_at(s, p, m + pos));
                },
                None => {},
            }
        },
    }
}

/// `str::replace` on characters, for a non-empty pattern.
pub fn replace(s: &[char], pat: &[char], rep: &[char]) -> (res: Vec<char>)
    requires
        pat@.len() > 0,
    ensures
        res@ == seq_replace(s@, pat@, rep@),
{
    let mut out: Vec<char> = Vec::new();
    let mut pos: usize = 0;
    assert(s@.skip(0) =~= s@);
    loop
        invariant
            pos <= s@.len(),
            pat@.len() > 0,
            out@ + seq_replace(s@.skip(pos as int), pat@, rep@) == seq_replace(s@, pat@, rep@),
        decreases s@.len() - pos,
    {
        proof {
            lemma_find_skip(s@, pat@, pos as int);
            lemma_find_from(s@, pat@, pos as int);
        }
        match find_from_exec(s, pat, pos) {
            Some(j) => {
                assert(matches_at(s@, pat@, j as int));
                assert(j + pat@.len() <= s@.len() == s.len());
                let ghost t = s@.skip(pos as int);
                let piece = slice_range(s, pos, j);
                let ghost before = out@;
                out.extend_from_slice(piece.as_slice());
                out.extend_from_slice(rep);
                proof {
                    assert(t.take(j - pos) =~= piece@);
                    assert(t.skip(j - pos + pat@.len()) =~= s@.skip(j + pat@.len()));
                    assert(out@ =~= before + t.take(j - pos) + rep@);
                    assert(before + (t.take(j - pos) + rep@ + seq_replace(t.skip(j - pos + pat@.len()), pat@, rep@))
                        =~= out@ + seq_replace(s@.skip(j + pat@.len()), pat@, rep@));
                }
                pos = j + pat.len();
                proof {
                    assert(pos <= s@.len());
                }
            },
            None => {
                let rest = slice_range(s, pos, s.len());
                let ghost before = out@;
                out.extend_from_slice(rest.as_slice());
                proof {
                    assert(rest@ =~= s@.skip(pos as int));
                    assert(out@ =~= before + s@.skip(pos as int));
                }
                return out;
            },
        }
    }
}

/// `str::split` on one character.
pub fn split_on(s: &[char], c: char) -> (res: Vec<Vec<char>>)
    ensures
        res@.len() == seq_split(s@, c).len(),
        forall|i: int| 0 <= i < res@.len() ==> #[trigger] res@[i]@ == seq_split(s@, c)[i],
{
    let mut out: Vec<Vec<char>> = Vec::new();
    let ghost mut done: Seq<Seq<char>> = Seq::empty();
    let mut pos: usize = 0;
    let sep: Vec<char> = vec![c];
    assert(sep@ =~= seq![c]);
    assert(s@.skip(0) =~= s@);
    assert(done + seq_split(s@, c) =~= seq_split(s@, c));
    loop
        invariant
            pos <= s@.len(),
            sep@ == seq![c],
            out@.len() == done.len(),
            forall|i: int| 0 <= i < out@.len() ==> #[trigger] out@[i]@ == done[i],
            done + seq_split(s@.skip(pos as int), c) == seq_split(s@, c),
        decreases s@.len() - pos,
    {
        proof {
            lemma_find_skip(s@, sep@, pos as int);
            lemma_find_from(s@, sep@, pos as int);
        }
        match find_from_exec(s, sep.as_slice(), pos) {
            Some(j) => {
                assert(matches_at(s@, sep@, j as int));
                assert(sep@.len() == 1);
                assert(j + 1 <= s@.len() == s.len());
                let ghost t = s@.skip(pos as int);
                let piece = slice_range(s, pos, j);
                proof {
                    assert(piece@ =~= t.take(j - pos));
                    assert(t.skip(j - pos + 1) =~= s@.skip(j + 1));
                    assert(done.push(piece@) + seq_split(s@.skip(j + 1), c) =~= done + seq_split(t, c));
                    done = done.push(piece@);
                }
                out.push(piece);
                pos = j + 1;
            },
            None => {
                let piece = slice_range(s, pos, s.len());
                proof {
                    assert(piece@ =~= s@.skip(pos as int));
                    done = done.push(piece@);
                }
                out.push(piece);
                return out;
            },
        }
    }
}

/// `str::split` on a non-empty text pattern: the pieces between the
/// occurrences of `p`, found from left to right without overlap.
pub open spec fn seq_split_str(s: Seq<char>, p: Seq<char>) -> Seq<Seq<char>>
    decreases s.len(),
{
    if p.len() == 0 {
        seq![s]
    } else {
        match seq_find(s, p) {
            Some(i) => if 0 <= i && i + p.len() <= s.len() {
                seq![s.take(i)] + seq_split_str(s.skip(i + p.len()), p)
            } else {
                seq![s]
            },
            None => seq![s],
        }
    }
}

/// `str::split` on a non-empty text pattern.
pub fn split_str_on(s: &[char], p: &[char]) -> (res: Vec<Vec<char>>)
    requires
        p@.len() > 0,
    ensures
        res@.len() == seq_split_str(s@, p@).len(),
        forall|i: int| 0 <= i < res@.len() ==> #[trigger] res@[i]@ == seq_split_str(s@, p@)[i],
{
    let mut out: Vec<Vec<char>> = Vec::new();
    let ghost mut done: Seq<Seq<char>> = Seq::empty();
    let mut pos: usize = 0;
    assert(s@.skip(0) =~= s@);
    assert(done + seq_split_str(s@, p@) =~= seq_split_str(s@, p@));
    loop
        invariant
            pos <= s@.len(),
            p@.len() > 0,
            out@.len() == done.len(),
            forall|i: int| 0 <= i < out@.len() ==> #[trigger] out@[i]@ == done[i],
            done + seq_split_str(s@.skip(pos as int), p@) == seq_split_str(s@, p@),
        decreases s@.len() - pos,
    {
        proof {
            lemma_find_skip(s@, p@, pos as int);
            lemma_find_from(s@, p@, pos as int);
        }
        match find_from_exec(s, p, pos) {
            Some(j) => {
                assert(matches_at(s@, p@, j as int));
                assert(j + p@.len() <= s@.len() == s.len());
                let ghost t = s@.skip(pos as int);
                let piece = slice_range(s, pos, j);
                proof {
                    assert(piece@ =~= t.take(j - pos));
                    assert(t.skip(j - pos + p@.len()) =~= s@.skip(j + p@.len()));
                    assert(done.push(piece@) + seq_split_str(s@.skip(j + p@.len()), p@) =~= done
                        + seq_split_str(t, p@));
                    done = done.push(piece@);
                }
                out.push(piece);
                pos = j + p.len();
            },
            None => {
                let piece = slice_range(s, pos, s.len());
                proof {
                    assert(piece@ =~= s@.skip(pos as int));
                    done = done.push(piece@);
                }
                out.push(piece);
                return out;
            },
        }
    }
}

/// The texts of a list of string slices.
pub open spec fn str_views(v: Seq<&str>) -> Seq<Seq<char>> {
    v.map_values(|w: &str| w@)
}

/// One of the words `ws` occurs in `t`.
pub open spec fn any_contains(t: Seq<char>, ws: Seq<Seq<char>>) -> bool {
    exists|i: int| 0 <= i < ws.len() && seq_contains(t, #[trigger] ws[i])
}

/// Whether one of `words` occurs in `t`.
pub fn contains_any(t: &[char], words: &Vec<&str>) -> (res: bool)
    ensures
        res == any_contains(t@, str_views(words@)),
{
    let mut i: usize = 0;
    while i < words.len()
        invariant
            i <= words@.len(),
            forall|k: int| 0 <= k < i ==> !seq_contains(t@, #[trigger] str_views(words@)[k]),
        decreases words@.len() - i,
    {
        if contains_str(t, words[i]) {
            assert(seq_contains(t@, str_views(words@)[i as int]));
            return true;
        }
        i += 1;
    }
    false
}

/// The value of a run of ASCII digits.
pub open spec fn digits_value(d: Seq<char>) -> nat
    decreases d.len(),
{
    if d.len() == 0 {
        0
    } else {
        digits_value(d.drop_last()) * 10 + ((d.last() as u32) - 48) as nat
    }
}

pub open spec fn is_digit(c: char) -> bool {
    48 <= (c as u32) && (c as u32) <= 57
}

/// What `str::parse` gives for an unsigned type whose largest value is
/// `max`: an optional `+`, then one or more ASCII digits whose value is at
/// most `max`.
/// The digits of a number to parse: the text without one leading `+`.
pub open spec fn unsigned_digits(s: Seq<char>) -> Seq<char> {
    if s.len() > 0 && s[0] == '+' {
        s.drop_first()
    } else {
        s
    }
}

pub open spec fn parsed_uint(s: Seq<char>, max: nat) -> Option<nat> {
    let d = unsigned_digits(s);
    if d.len() > 0 && (forall|i: int| 0 <= i < d.len() ==> is_digit(#[trigger] d[i]))
        && digits_value(d) <= max {
        Some(digits_value(d))
    } else {
        None
    }
}

proof fn lemma_digits_prefix_mono(d: Seq<char>, i: int)
    requires
        0 <= i <= d.len(),
        forall|k: int| 0 <= k < d.len() ==> is_digit(#[trigger] d[k]),
    ensures
        digits_value(d.take(i)) <= digits_value(d),
    decreases d.len() - i,
{
    if i < d.len() {
        lemma_digits_prefix_mono(d, i + 1);
        assert(d.take(i + 1).drop_last() =~= d.take(i));
        assert(d.take(i + 1).last() == d[i]);
    } else {
        assert(d.take(i) =~= d);
    }
}

/// `str::parse::<u64>`.
pub fn parse_u64(s: &[char]) -> (res: Option<u64>)
    ensures
        match res {
            Some(n) => parsed_uint(s@, u64::MAX as nat) == Some(n as nat),
            None => parsed_uint(s@, u64::MAX as nat) is None,
        },
{
    let start: usize = if s.len() > 0 && s[0] == '+' {
        1
    } else {
        0
    };
    let ghost d = unsigned_digits(s@);
    assert(d =~= s@.skip(start as int));
    if start >= s.len() {
        assert(d.len() == 0);
        return None;
    }
    let mut v: u64 = 0;
    let mut i: usize = start;
    while i < s.len()
        invariant
            start <= i <= s@.len(),
            d == s@.skip(start as int),
            d == unsigned_digits(s@),
            v as nat == digits_value(d.take(i - start)),
            forall|k: int| 0 <= k < i - start ==> is_digit(#[trigger] d[k]),
        decreases s@.len() - i,
    {
        let c = s[i];
        let cv = c as u32;
        if cv < 48 || cv > 57 {
            assert(d[i - start] == c);
            assert(!is_digit(d[i - start]));
            assert(!(forall|k: int| 0 <= k < d.len() ==> is_digit(#[trigger] d[k])));
            return None;
        }
        assert(d.take(i - start + 1).drop_last() =~= d.take(i - start));
        assert(d.take(i - start + 1).last() == c);
        let digit = (cv - 48) as u64;
        let grown = v.checked_mul(10);
        let next = match grown {
            Some(m) => m.checked_add(digit),
            None => None,
        };
        match next {
            Some(w) => {
                v = w;
            },
            None => {
                proof {
                    assert(digits_value(d.take(i - start + 1)) > u64::MAX);
                    if forall|k: int| 0 <= k < d.len() ==> is_digit(#[trigger] d[k]) {
                        lemma_digits_prefix_mono(d, i - start + 1);
                        assert(digits_value(d) > u64::MAX);
                    }
                }
                return None;
            },
        }
        i += 1;
    }
    assert(d.take(i - start) =~= d);
    Some(v)
}

/// `str::parse::<usize>`.
pub fn parse_usize(s: &[char]) -> (res: Option<usize>)
    ensures
        match res {
            Some(n) => parsed_uint(s@, usize::MAX as nat) == Some(n as nat),
            None => parsed_uint(s@, usize::MAX as nat) is None,
        },
{
    match parse_u64(s) {
        Some(v) => {
            if v <= usize::MAX as u64 {
                Some(v as usize)
            } else {
                None
            }
        },
        None => None,
    }
}

/// The characters of each piece, as strings.
pub fn pieces_to_strings(pieces: &Vec<Vec<char>>) -> (res: Vec<String>)
    ensures
        res@.len() == pieces@.len(),
        forall|i: int| 0 <= i < res@.len() ==> #[trigger] res@[i]@ == pieces@[i]@,
{
    let mut out: Vec<String> = Vec::new();
    let mut i: usize = 0;
    while i < pieces.len()
        invariant
            i <= pieces@.len(),
            out@.len() == i,
            forall|k: int| 0 <= k < i ==> #[trigger] out@[k]@ == pieces@[k]@,
        decreases pieces@.len() - i,
    {
        out.push(from_chars(pieces[i].as_slice()));
        i += 1;
    }
    out
}

/// `str::lines`, each line as a string.
pub fn lines_of(s: &str) -> (res: Vec<String>)
    ensures
        crate::dup::views(res@) == seq_lines(s@),
{
    let cs = to_chars(s);
    let ls = split_lines(cs.as_slice());
    let out = pieces_to_strings(&ls);
    assert(crate::dup::views(out@) =~= seq_lines(s@));
    out
}

/// `str::trim`, as a string.
pub fn trim_str(s: &str) -> (res: String)
    ensures
        res@ == seq_trim(s@),
{
    let cs = to_chars(s);
    let t = trim(cs.as_slice());
    from_chars(t.as_slice())
}

/// `str::trim_start` on characters.
pub fn trim_start(s: &[char]) -> (res: Vec<char>)
    ensures
        res@ == seq_trim_start(s@),
{
    let mut a: usize = 0;
    while a < s.len() && is_whitespace(s[a])
        invariant
            a <= s@.len(),
            forall|k: int| 0 <= k < a ==> is_ws(s@[k]),
        decreases s@.len() - a,
    {
        a += 1;
    }
    proof {
        lemma_ws_prefix(s@, a as int);
        let t = s@.subrange(a as int, s@.len() as int);
        if t.len() > 0 {
            assert(t[0] == s@[a as int]);
        }
    }
    slice_range(s, a, s.len())
}

/// Whether `s` is one of the strings of `v`.
pub fn contains_string(v: &Vec<String>, s: &str) -> (res: bool)
    ensures
        res == crate::dup::views(v@).contains(s@),
{
    let mut i: usize = 0;
    while i < v.len()
        invariant
            i <= v@.len(),
            forall|k: int| 0 <= k < i ==> v@[k]@ != s@,
        decreases v@.len() - i,
    {
        if str_eq(v[i].as_str(), s) {
            assert(crate::dup::views(v@)[i as int] == s@);
            return true;
        }
        i += 1;
    }
    proof {
        if crate::dup::views(v@).contains(s@) {
            let k = choose|k: int| 0 <= k < v@.len() && crate::dup::views(v@)[k] == s@;
            assert(v@[k]@ == s@);
        }
    }
    false
}

/// `n`, or `usize::MAX` if it is larger.
pub open spec fn sat(n: int) -> int {
    if n > usize::MAX {
        usize::MAX as int
    } else {
        n
    }
}

/// The byte length of the UTF-8 encoding of `s`, saturated at `usize::MAX`.
pub fn byte_len_sat(s: &[char]) -> (res: usize)
    ensures
        res == sat(byte_len(s@) as int),
{
    let mut i: usize = 0;
    let mut acc: usize = 0;
    while i < s.len()
        invariant
            i <= s@.len(),
            acc == sat(byte_len(s@.take(i as int)) as int),
        decreases s@.len() - i,
    {
        let w = char_utf8_width(s[i]);
        proof {
            lemma_byte_len_push(s@.take(i as int), s@[i as int]);
            assert(s@.take(i as int).push(s@[i as int]) =~= s@.take(i + 1));
        }
        acc = acc.saturating_add(w);
        i += 1;
    }
    assert(s@.take(s@.len() as int) =~= s@);
    acc
}

/// The byte length of a string, saturated at `usize::MAX`.
pub fn str_byte_len_sat(s: &str) -> (res: usize)
    ensures
        res == sat(byte_len(s@) as int),
{
    byte_len_sat(to_chars(s).as_slice())
}

proof fn lemma_prefix_count_step(s: Seq<char>, i: int, acc: nat, max: nat)
    requires
        0 <= i < s.len(),
        acc + utf8_width(s[i]) <= max,
        acc <= max,
    ensures
        prefix_count(s.skip(i), (max - acc) as nat) == 1 + prefix_count(s.skip(i + 1), (max - acc - utf8_width(s[i])) as nat),
{
    let t = s.skip(i);
    assert(t.subrange(1, t.len() as int) =~= s.skip(i + 1));
    assert(t[0] == s[i]);
}

/// The longest prefix of `s` whose encoding takes at most `max` bytes.
pub fn prefix_within_bytes(s: &[char], max: usize) -> (res: Vec<char>)
    ensures
        res@ == prefix_within(s@, max as nat),
{
    let mut i: usize = 0;
    let mut acc: usize = 0;
    assert(s@.skip(0) =~= s@);
    while i < s.len() && char_utf8_width(s[i]) <= max - acc
        invariant
            i <= s@.len(),
            acc <= max,
            prefix_count(s@, max as nat) == i + prefix_count(s@.skip(i as int), (max - acc) as nat),
        decreases s@.len() - i,
    {
        proof {
            lemma_prefix_count_step(s@, i as int, acc as nat, max as nat);
        }
        acc = acc + char_utf8_width(s[i]);
        i += 1;
    }
    proof {
        let t = s@.skip(i as int);
        if i < s@.len() {
            assert(t[0] == s@[i as int]);
        }
        assert(prefix_count(t, (max - acc) as nat) == 0);
    }
    slice_range(s, 0, i)
}

} // verus!
