//! Reading a model's answer: the JSON text it holds, the words for kinds and
//! confidence levels, and fields of the plain-text form.
use vstd::prelude::*;
use crate::dup::{opt_view, views};
use crate::navigation::priority::{all_ascii, ascii_lower, lowercase, to_lowercase};
use crate::report::types::{Confidence, InvariantType};
use crate::text::{
    contains, contains_str, find, from_chars, lemma_find_from, matches_at, rfind, seq_contains,
    seq_find, seq_rfind, seq_split_str, seq_trim, slice_range, split_str_on, str_eq, to_chars,
    trim, any_contains, contains_any, str_views, seq_starts_with, seq_ends_with, starts_with_str,
    ends_with_str, find_from_exec, lemma_find_skip, seq_lines, split_lines, push_str,
};

verus! {

// ---------------------------------------------------------------------------
// The JSON text of an answer
// ---------------------------------------------------------------------------

/// `str::split` always yields at least one piece.
pub proof fn lemma_split_str_nonempty(s: Seq<char>, p: Seq<char>)
    ensures
        seq_split_str(s, p).len() >= 1,
{
    reveal_with_fuel(seq_split_str, 1);
}

/// Where the pattern occurs, `str::split` yields at least two pieces.
pub proof fn lemma_split_str_two(s: Seq<char>, p: Seq<char>)
    requires
        p.len() > 0,
        seq_contains(s, p),
    ensures
        seq_split_str(s, p).len() >= 2,
{
    lemma_find_from(s, p, 0);
    let i = choose|i: int| matches_at(s, p, i);
    assert(matches_at(s, p, i));
    match seq_find(s, p) {
        Some(j) => {
            lemma_split_str_nonempty(s.skip(j + p.len()), p);
        },
        None => {},
    }
}

/// The text between the code fences of an answer: after the first
/// `` ```json `` up to the next fence, else after the first fence up to the
/// next one, else the whole text.
pub open spec fn fenced(t: Seq<char>) -> Seq<char> {
    if seq_contains(t, "```json"@) {
        seq_split_str(seq_split_str(t, "```json"@)[1], "```"@)[0]
    } else if seq_contains(t, "```"@) {
        seq_split_str(seq_split_str(t, "```"@)[1], "```"@)[0]
    } else {
        t
    }
}

/// The text from the first `open` to the last `close`, both included, when
/// the first comes before the last.
pub open spec fn bracketed(body: Seq<char>, open: char, close: char) -> Option<Seq<char>> {
    match (seq_find(body, seq![open]), seq_rfind(body, seq![close])) {
        (Some(a), Some(b)) => if a < b + 1 {
            Some(body.subrange(a, b + 1))
        } else {
            None
        },
        _ => None,
    }
}

/// The JSON array of an answer, fenced in markdown or not.
pub open spec fn json_array_of(text: Seq<char>) -> Option<Seq<char>> {
    bracketed(fenced(seq_trim(text)), '[', ']')
}

/// The JSON object of an answer, fenced in markdown or not.
pub open spec fn json_object_of(text: Seq<char>) -> Option<Seq<char>> {
    bracketed(fenced(seq_trim(text)), '{', '}')
}

fn fenced_exec(t: &[char]) -> (res: Vec<char>)
    ensures
        res@ == fenced(t@),
{
    let json_fence = to_chars("```json");
    let fence = to_chars("```");
    proof {
        reveal_strlit("```json");
        reveal_strlit("```");
    }
    if contains(t, json_fence.as_slice()) {
        proof {
            lemma_split_str_two(t@, json_fence@);
        }
        let parts = split_str_on(t, json_fence.as_slice());
        let inner = split_str_on(parts[1].as_slice(), fence.as_slice());
        proof {
            lemma_split_str_nonempty(parts[1]@, fence@);
        }
        slice_range(inner[0].as_slice(), 0, inner[0].len())
    } else if contains(t, fence.as_slice()) {
        proof {
            lemma_split_str_two(t@, fence@);
        }
        let parts = split_str_on(t, fence.as_slice());
        let inner = split_str_on(parts[1].as_slice(), fence.as_slice());
        proof {
            lemma_split_str_nonempty(parts[1]@, fence@);
        }
        slice_range(inner[0].as_slice(), 0, inner[0].len())
    } else {
        slice_range(t, 0, t.len())
    }
}

fn bracketed_exec(body: &[char], open: char, close: char) -> (res: Option<String>)
    ensures
        opt_view(res) == bracketed(body@, open, close),
{
    let o: Vec<char> = vec![open];
    let c: Vec<char> = vec![close];
    assert(o@ =~= seq![open]);
    assert(c@ =~= seq![close]);
    match (find(body, o.as_slice()), rfind(body, c.as_slice())) {
        (Some(a), Some(b)) => {
            proof {
                lemma_find_from(body@, o@, 0);
                crate::text::lemma_rfind_upto(body@, c@, body@.len() - c@.len());
                assert(matches_at(body@, c@, b as int));
            }
            if a <= b && b < body.len() {
                let piece = slice_range(body, a, b + 1);
                Some(from_chars(piece.as_slice()))
            } else {
                None
            }
        },
        _ => None,
    }
}

/// The JSON array in a model's answer: the text from the first `[` to the
/// last `]` of the fenced part (or of the whole trimmed answer).
pub fn extract_json_array(text: &str) -> (res: Option<String>)
    ensures
        opt_view(res) == json_array_of(text@),
{
    let cs = to_chars(text);
    let t = trim(cs.as_slice());
    let body = fenced_exec(t.as_slice());
    bracketed_exec(body.as_slice(), '[', ']')
}

/// The JSON object in a model's answer: the text from the first `{` to the
/// last `}` of the fenced part (or of the whole trimmed answer).
pub fn extract_json_object(text: &str) -> (res: Option<String>)
    ensures
        opt_view(res) == json_object_of(text@),
{
    let cs = to_chars(text);
    let t = trim(cs.as_slice());
    let body = fenced_exec(t.as_slice());
    bracketed_exec(body.as_slice(), '{', '}')
}

// ---------------------------------------------------------------------------
// Words for kinds and confidence levels
// ---------------------------------------------------------------------------

/// The kind that a lowercased kind word names. The exact names
/// (`temporal_ordering`, `resource_lifecycle`, `state_machine`,
/// `precondition`, `protocol`) fall under the same tests.
pub open spec fn kind_named(k: Seq<char>) -> InvariantType {
    if seq_contains(k, "temporal"@) || seq_contains(k, "order"@) || seq_contains(k, "sequence"@) {
        InvariantType::TemporalOrdering
    } else if seq_contains(k, "resource"@) || seq_contains(k, "lifecycle"@) || seq_contains(
        k,
        "cleanup"@,
    ) {
        InvariantType::ResourceLifecycle
    } else if seq_contains(k, "state"@) || seq_contains(k, "machine"@) {
        InvariantType::StateMachine
    } else if seq_contains(k, "precondition"@) || seq_contains(k, "require"@) {
        InvariantType::Precondition
    } else {
        InvariantType::Protocol
    }
}

/// The kind of invariant a kind word from the model names.
pub fn parse_invariant_kind(kind: &str) -> (res: InvariantType)
    ensures
        res == kind_named(lowercase(kind@)),
{
    let lower = to_lowercase(kind);
    let k = to_chars(lower.as_str());
    let k = k.as_slice();
    if contains_str(k, "temporal") || contains_str(k, "order") || contains_str(k, "sequence") {
        InvariantType::TemporalOrdering
    } else if contains_str(k, "resource") || contains_str(k, "lifecycle") || contains_str(
        k,
        "cleanup",
    ) {
        InvariantType::ResourceLifecycle
    } else if contains_str(k, "state") || contains_str(k, "machine") {
        InvariantType::StateMachine
    } else if contains_str(k, "precondition") || contains_str(k, "require") {
        InvariantType::Precondition
    } else {
        InvariantType::Protocol
    }
}

/// The confidence a lowercased confidence word names: `high` and `low`,
/// anything else medium.
pub open spec fn confidence_named(c: Seq<char>) -> Confidence {
    if c == "high"@ {
        Confidence::High
    } else if c == "low"@ {
        Confidence::Low
    } else {
        Confidence::Medium
    }
}

/// The confidence level a confidence word from the model names.
pub fn parse_confidence(confidence: &str) -> (res: Confidence)
    ensures
        res == confidence_named(lowercase(confidence@)),
        all_ascii(confidence@) ==> res == confidence_named(
            confidence@.map_values(|c: char| ascii_lower(c)),
        ),
{
    let lower = to_lowercase(confidence);
    if str_eq(lower.as_str(), "high") {
        Confidence::High
    } else if str_eq(lower.as_str(), "low") {
        Confidence::Low
    } else {
        Confidence::Medium
    }
}

/// The word one level below a lowercased confidence word: `high` becomes
/// `medium`, anything else `low`.
pub open spec fn downgraded(c: Seq<char>) -> Seq<char> {
    if c == "high"@ {
        "medium"@
    } else {
        "low"@
    }
}

/// A confidence word one level lower.
pub fn downgrade_confidence(confidence: &str) -> (res: String)
    ensures
        res@ == downgraded(lowercase(confidence@)),
{
    let lower = to_lowercase(confidence);
    if str_eq(lower.as_str(), "high") {
        String::from_str("medium")
    } else {
        String::from_str("low")
    }
}

/// The kind read from a lowercased pattern name and description, as the
/// plain-text answers are classified.
pub open spec fn kind_from_text(p: Seq<char>, d: Seq<char>) -> InvariantType {
    if seq_contains(p, "typestate"@) || seq_contains(p, "session"@) || seq_contains(d, "order"@)
        || seq_contains(d, "sequence"@) || seq_contains(d, "before"@) {
        InvariantType::TemporalOrdering
    } else if seq_contains(p, "raii"@) || seq_contains(p, "drop"@) || seq_contains(d, "cleanup"@)
        || seq_contains(d, "free"@) || seq_contains(d, "release"@) || seq_contains(d, "close"@) {
        InvariantType::ResourceLifecycle
    } else if seq_contains(d, "state"@) || seq_contains(d, "transition"@) {
        InvariantType::StateMachine
    } else if seq_contains(d, "must"@) || seq_contains(d, "precondition"@) || seq_contains(
        d,
        "require"@,
    ) {
        InvariantType::Precondition
    } else {
        InvariantType::Protocol
    }
}

/// The kind of an invariant given in plain text, from its pattern and
/// description.
pub fn classify_from_text(pattern: &str, description: &str) -> (res: InvariantType)
    ensures
        res == kind_from_text(lowercase(pattern@), lowercase(description@)),
{
    let pl = to_lowercase(pattern);
    let dl = to_lowercase(description);
    let p = to_chars(pl.as_str());
    let d = to_chars(dl.as_str());
    let p = p.as_slice();
    let d = d.as_slice();
    if contains_str(p, "typestate") || contains_str(p, "session") || contains_str(d, "order")
        || contains_str(d, "sequence") || contains_str(d, "before") {
        InvariantType::TemporalOrdering
    } else if contains_str(p, "raii") || contains_str(p, "drop") || contains_str(d, "cleanup")
        || contains_str(d, "free") || contains_str(d, "release") || contains_str(d, "close") {
        InvariantType::ResourceLifecycle
    } else if contains_str(d, "state") || contains_str(d, "transition") {
        InvariantType::StateMachine
    } else if contains_str(d, "must") || contains_str(d, "precondition") || contains_str(
        d,
        "require",
    ) {
        InvariantType::Precondition
    } else {
        InvariantType::Protocol
    }
}

// ---------------------------------------------------------------------------
// Fields of the plain-text form
// ---------------------------------------------------------------------------

/// Where the value of a field ends: the first position after its start at
/// which one of `markers` begins, if one begins before `end`.
pub open spec fn cut_at(rem: Seq<char>, markers: Seq<Seq<char>>, end: int) -> int
    decreases markers.len(),
{
    if markers.len() == 0 {
        end
    } else {
        let e = match seq_find(rem, markers[0]) {
            Some(p) => if 0 < p && p < end {
                p
            } else {
                end
            },
            None => end,
        };
        cut_at(rem, markers.drop_first(), e)
    }
}

proof fn lemma_cut_at_bounds(rem: Seq<char>, markers: Seq<Seq<char>>, end: int)
    requires
        0 <= end,
    ensures
        0 <= cut_at(rem, markers, end) <= end,
    decreases markers.len(),
{
    if markers.len() > 0 {
        let e = match seq_find(rem, markers[0]) {
            Some(p) => if 0 < p && p < end {
                p
            } else {
                end
            },
            None => end,
        };
        lemma_cut_at_bounds(rem, markers.drop_first(), e);
    }
}

/// The markers that end a field of the plain-text form.
pub open spec fn text_markers() -> Seq<Seq<char>> {
    seq!["Name:"@, "Description:"@, "Evidence:"@, "Pattern:"@, "Implementation:"@, "INVARIANT"@]
}

/// The markers that end a field of the older line-based form.
pub open spec fn line_markers() -> Seq<Seq<char>> {
    seq!["Title:"@, "Description:"@, "Explanation:"@, "INVARIANT"@]
}

/// The first position in `rem` at which one of `markers` begins, when it
/// is after the start and before `end`; else `end`.
fn cut_exec(rem: &[char], markers: &Vec<&str>, end: usize) -> (res: usize)
    requires
        end <= rem@.len(),
    ensures
        res == cut_at(rem@, str_views(markers@), end as int),
{
    let ghost ms = str_views(markers@);
    let mut e = end;
    let mut k: usize = 0;
    assert(ms.skip(0) =~= ms);
    while k < markers.len()
        invariant
            k <= markers@.len(),
            ms == str_views(markers@),
            e <= end <= rem@.len(),
            cut_at(rem@, ms, end as int) == cut_at(rem@, ms.skip(k as int), e as int),
        decreases markers@.len() - k,
    {
        let m = to_chars(markers[k]);
        proof {
            assert(ms.skip(k as int)[0] == m@);
            assert(ms.skip(k as int).drop_first() =~= ms.skip(k + 1));
        }
        match find(rem, m.as_slice()) {
            Some(p) => {
                if 0 < p && p < e {
                    e = p;
                }
            },
            None => {},
        }
        k += 1;
    }
    e
}

/// The value of a field of the plain-text form: the text after the first
/// `name`, up to the next marker, trimmed; none when absent or empty.
pub open spec fn field_value(text: Seq<char>, name: Seq<char>) -> Option<Seq<char>> {
    match seq_find(text, name) {
        Some(i) => {
            let rem = text.skip(i + name.len());
            let v = seq_trim(rem.take(cut_at(rem, text_markers(), rem.len() as int)));
            if v.len() == 0 {
                None
            } else {
                Some(v)
            }
        },
        None => None,
    }
}

/// The value of a field of the older line-based form: the text after the
/// first `name` up to the end of its line (or an earlier marker), trimmed.
pub open spec fn line_field_value(text: Seq<char>, name: Seq<char>) -> Option<Seq<char>> {
    match seq_find(text, name) {
        Some(i) => {
            let rem = text.skip(i + name.len());
            let end = match seq_find(rem, seq!['\n']) {
                Some(nl) => cut_at(rem, line_markers(), nl),
                None => rem.len() as int,
            };
            Some(seq_trim(rem.take(end)))
        },
        None => None,
    }
}

/// The text after the first `name` in `text`, when `name` occurs.
fn after_name(text: &[char], name: &[char]) -> (res: Option<Vec<char>>)
    ensures
        match seq_find(text@, name@) {
            Some(i) => res is Some && res->0@ == text@.skip(i + name@.len()),
            None => res is None,
        },
{
    match find(text, name) {
        Some(i) => {
            proof {
                lemma_find_from(text@, name@, 0);
            }
            let tl = text.len();
            assert(matches_at(text@, name@, i as int));
            assert(i + name@.len() <= tl);
            Some(slice_range(text, i + name.len(), tl))
        },
        None => None,
    }
}

/// The value of a field of a plain-text answer (`Name:`, `Description:`,
/// ...): the text after the first occurrence of `field_name` up to the next
/// field marker, trimmed, or none when the field is absent or empty.
pub fn extract_field(text: &str, field_name: &str) -> (res: Option<String>)
    ensures
        opt_view(res) == field_value(text@, field_name@),
{
    let t = to_chars(text);
    let n = to_chars(field_name);
    match after_name(t.as_slice(), n.as_slice()) {
        Some(rem) => {
            let markers: Vec<&str> = vec![
                "Name:",
                "Description:",
                "Evidence:",
                "Pattern:",
                "Implementation:",
                "INVARIANT",
            ];
            assert(str_views(markers@) =~= text_markers());
            let end = cut_exec(rem.as_slice(), &markers, rem.len());
            proof {
                lemma_cut_at_bounds(rem@, text_markers(), rem@.len() as int);
            }
            let head = slice_range(rem.as_slice(), 0, end);
            assert(head@ =~= rem@.take(end as int));
            let v = trim(head.as_slice());
            if v.len() == 0 {
                None
            } else {
                Some(from_chars(v.as_slice()))
            }
        },
        None => None,
    }
}

/// The value of a field of a line-based answer (`Title:`, `Description:`,
/// `Explanation:`): the text after the first occurrence of `field_name` up
/// to the end of its line or an earlier marker, trimmed.
pub fn extract_line_field(text: &str, field_name: &str) -> (res: Option<String>)
    ensures
        opt_view(res) == line_field_value(text@, field_name@),
{
    let t = to_chars(text);
    let n = to_chars(field_name);
    match after_name(t.as_slice(), n.as_slice()) {
        Some(rem) => {
            let nl: Vec<char> = vec!['\n'];
            assert(nl@ =~= seq!['\n']);
            let end = match find(rem.as_slice(), nl.as_slice()) {
                Some(i) => {
                    proof {
                        lemma_find_from(rem@, nl@, 0);
                    }
                    let markers: Vec<&str> = vec!["Title:", "Description:", "Explanation:", "INVARIANT"];
                    assert(str_views(markers@) =~= line_markers());
                    proof {
                        lemma_cut_at_bounds(rem@, line_markers(), i as int);
                    }
                    cut_exec(rem.as_slice(), &markers, i)
                },
                None => rem.len(),
            };
            let head = slice_range(rem.as_slice(), 0, end);
            assert(head@ =~= rem@.take(end as int));
            let v = trim(head.as_slice());
            Some(from_chars(v.as_slice()))
        },
        None => None,
    }
}

// ---------------------------------------------------------------------------
// Reading the JSON text again
// ---------------------------------------------------------------------------

/// The first piece of a split on a non-empty pattern holds no occurrence of it.
proof fn lemma_first_piece_free(s: Seq<char>, p: Seq<char>)
    requires
        p.len() > 0,
    ensures
        !seq_contains(seq_split_str(s, p)[0], p),
{
    lemma_find_from(s, p, 0);
    let f = seq_split_str(s, p)[0];
    match seq_find(s, p) {
        Some(i) => {
            assert(f =~= s.take(i));
            assert forall|j: int| !matches_at(f, p, j) by {
                if matches_at(f, p, j) {
                    assert(s.subrange(j, j + p.len()) =~= f.subrange(j, j + p.len()));
                    assert(matches_at(s, p, j));
                }
            }
        },
        None => {
            assert(f == s);
        },
    }
}

/// A part of a text that holds no occurrence of `p` holds none either.
proof fn lemma_free_subrange(b: Seq<char>, p: Seq<char>, a: int, e: int)
    requires
        0 <= a <= e <= b.len(),
        !seq_contains(b, p),
    ensures
        !seq_contains(b.subrange(a, e), p),
{
    let r = b.subrange(a, e);
    assert forall|j: int| !matches_at(r, p, j) by {
        if matches_at(r, p, j) {
            assert(b.subrange(a + j, a + j + p.len()) =~= r.subrange(j, j + p.len()));
            assert(matches_at(b, p, a + j));
        }
    }
}

/// The fenced part of an answer holds no code fence.
proof fn lemma_fenced_free(t: Seq<char>)
    ensures
        !seq_contains(fenced(t), "```"@),
{
    reveal_strlit("```");
    if seq_contains(t, "```json"@) {
        lemma_first_piece_free(seq_split_str(t, "```json"@)[1], "```"@);
    } else if seq_contains(t, "```"@) {
        lemma_first_piece_free(seq_split_str(t, "```"@)[1], "```"@);
    }
}

/// A text without a code fence is its own fenced part.
proof fn lemma_fenced_unfenced(r: Seq<char>)
    requires
        !seq_contains(r, "```"@),
    ensures
        fenced(r) == r,
{
    reveal_strlit("```");
    reveal_strlit("```json");
    assert forall|j: int| !matches_at(r, "```json"@, j) by {
        if matches_at(r, "```json"@, j) {
            assert(r.subrange(j, j + 3) =~= r.subrange(j, j + 7).subrange(0, 3));
            assert("```json"@.subrange(0, 3) =~= "```"@);
            assert(matches_at(r, "```"@, j));
        }
    }
}

/// What is read between `open` and `close` opens and closes with them, and
/// reading it again gives it back.
proof fn lemma_bracketed_reread(t: Seq<char>, open: char, close: char)
    requires
        !crate::text::is_ws(open),
        !crate::text::is_ws(close),
    ensures
        match bracketed(fenced(seq_trim(t)), open, close) {
            Some(r) => r.len() >= 1 && r[0] == open && r[r.len() - 1] == close && bracketed(
                fenced(seq_trim(r)),
                open,
                close,
            ) == Some(r),
            None => true,
        },
{
    let body = fenced(seq_trim(t));
    lemma_find_from(body, seq![open], 0);
    crate::text::lemma_rfind_upto(body, seq![close], body.len() - 1);
    match bracketed(body, open, close) {
        Some(r) => {
            let a = seq_find(body, seq![open])->0;
            let b = seq_rfind(body, seq![close])->0;
            assert(r == body.subrange(a, b + 1));
            assert(body.subrange(a, a + 1)[0] == body[a]);
            assert(body.subrange(b, b + 1)[0] == body[b]);
            assert(r[0] == open);
            assert(r[r.len() - 1] == close);
            lemma_fenced_free(seq_trim(t));
            lemma_free_subrange(body, "```"@, a, b + 1);
            assert(crate::text::ws_prefix_len(r) == 0);
            assert(crate::text::seq_trim_start(r) =~= r);
            assert(crate::text::ws_suffix_len(r) == 0);
            assert(seq_trim(r) =~= r);
            lemma_fenced_unfenced(r);
            assert(r.subrange(0, 1) =~= seq![open]);
            assert(matches_at(r, seq![open], 0));
            assert(seq_find(r, seq![open]) == Some(0int));
            assert(r.subrange(r.len() - 1, r.len() as int) =~= seq![close]);
            assert(matches_at(r, seq![close], r.len() - 1));
            assert(seq_rfind(r, seq![close]) == Some(r.len() - 1));
            assert(r.subrange(0, r.len() as int) =~= r);
        },
        None => {},
    }
}

/// The JSON array read from an answer opens with `[` and closes with `]`,
/// and the JSON object opens with `{` and closes with `}`; reading either
/// out of what was read gives it back unchanged.
pub proof fn law_json_reread(text: Seq<char>)
    ensures
        match json_array_of(text) {
            Some(r) => r.len() >= 1 && r[0] == '[' && r[r.len() - 1] == ']' && json_array_of(r)
                == Some(r),
            None => true,
        },
        match json_object_of(text) {
            Some(r) => r.len() >= 1 && r[0] == '{' && r[r.len() - 1] == '}' && json_object_of(r)
                == Some(r),
            None => true,
        },
{
    lemma_bracketed_reread(text, '[', ']');
    lemma_bracketed_reread(text, '{', '}');
}

} // verus!
