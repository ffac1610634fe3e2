//! Scoring analysis chunks and ordering them so that likely targets come
//! first.
use vstd::prelude::*;
use crate::dup::views;
use crate::navigation::chunk::{AnalysisChunk, AnalysisChunkV};
use crate::parser::ast::{FunctionDefV, ImplBlockV, SelfParam, StructDefV};
use crate::text::{seq_contains, contains, contains_str, to_chars, str_eq};

verus! {

/// What `str::to_lowercase` returns for a text.
pub uninterp spec fn lowercase(s: Seq<char>) -> Seq<char>;

/// ASCII lowercasing of one character: `A`..=`Z` become `a`..=`z`.
pub open spec fn ascii_lower(c: char) -> char {
    if 65 <= (c as u32) && (c as u32) <= 90 {
        ((c as u32) + 32) as char
    } else {
        c
    }
}

/// Every character of `s` is ASCII.
pub open spec fn all_ascii(s: Seq<char>) -> bool {
    forall|i: int| 0 <= i < s.len() ==> (#[trigger] s[i] as u32) < 128
}

/// `str::to_lowercase`. The result is the name `lowercase` of the text. On
/// an ASCII text it is the text with each letter `A`..=`Z` lowered, as the
/// Unicode lowercase mapping of an ASCII character is its ASCII lowercase;
/// what lowercasing does to other characters is not stated here.
#[verifier::external_body]
pub(crate) fn to_lowercase(s: &str) -> (res: String)
    ensures
        res@ == lowercase(s@),
        all_ascii(s@) ==> res@ == s@.map_values(|c: char| ascii_lower(c)),
{
    s.to_lowercase()
}

/// The number of elements of `s` for which `p` holds.
pub open spec fn count_where<T>(s: Seq<T>, p: spec_fn(T) -> bool) -> int
    decreases s.len(),
{
    if s.len() == 0 {
        0
    } else {
        count_where(s.drop_last(), p) + (if p(s.last()) { 1int } else { 0int })
    }
}

pub open spec fn any_prefix(module_name: Seq<char>, prefixes: Seq<Seq<char>>) -> bool {
    exists|i: int| 0 <= i < prefixes.len() && seq_contains(module_name, prefixes[i])
}

pub open spec fn has_method_where(b: ImplBlockV, p: spec_fn(FunctionDefV) -> bool) -> bool {
    exists|i: int| 0 <= i < b.methods.len() && p(b.methods[i])
}

pub open spec fn owned_receiver() -> spec_fn(FunctionDefV) -> bool {
    |m: FunctionDefV| m.self_param == Some(SelfParam::Owned)
}

pub open spec fn unsafe_fn() -> spec_fn(FunctionDefV) -> bool {
    |m: FunctionDefV| m.is_unsafe
}

pub open spec fn phantom_struct() -> spec_fn(StructDefV) -> bool {
    |s: StructDefV| s.has_phantom_data
}

pub open spec fn drop_impl() -> spec_fn(ImplBlockV) -> bool {
    |b: ImplBlockV| b.trait_name == Some("Drop"@)
}

pub open spec fn impl_with_owned() -> spec_fn(ImplBlockV) -> bool {
    |b: ImplBlockV| has_method_where(b, owned_receiver())
}

pub open spec fn impl_with_unsafe() -> spec_fn(ImplBlockV) -> bool {
    |b: ImplBlockV| has_method_where(b, unsafe_fn())
}

/// The lowercased source mentions safety, `must`, an invariant or a precondition.
pub open spec fn has_keyword(lower: Seq<char>) -> bool {
    seq_contains(lower, "safety"@) || seq_contains(lower, "must"@) || seq_contains(lower, "invariant"@)
        || seq_contains(lower, "precondition"@)
}

/// The priority of a chunk: 1000 when its module path contains one of the
/// prefixes, 50 per struct with `PhantomData`, 40 per `Drop` impl, 30 per
/// impl block with a method taking `self` by value, 20 per impl block with an
/// unsafe method, 20 when a free function is unsafe, and 10 when the
/// lowercased source speaks of safety, `must`, an invariant or a precondition.
pub open spec fn score_of(c: AnalysisChunkV, prefixes: Seq<Seq<char>>) -> int {
    (if any_prefix(c.module_name, prefixes) { 1000int } else { 0int })
        + 50 * count_where(c.structs, phantom_struct())
        + 40 * count_where(c.impl_blocks, drop_impl())
        + 30 * count_where(c.impl_blocks, impl_with_owned())
        + 20 * count_where(c.impl_blocks, impl_with_unsafe())
        + (if exists|i: int| 0 <= i < c.functions.len() && c.functions[i].is_unsafe { 20int } else { 0int })
        + (if has_keyword(lowercase(c.raw_source)) { 10int } else { 0int })
}

/// A chunk whose module path contains a priority prefix scores at least
/// 1000.
pub proof fn law_priority_prefix_boost(c: AnalysisChunkV, prefixes: Seq<Seq<char>>)
    requires
        any_prefix(c.module_name, prefixes),
    ensures
        score_of(c, prefixes) >= 1000,
{
    lemma_count_bound(c.structs, phantom_struct());
    lemma_count_bound(c.impl_blocks, drop_impl());
    lemma_count_bound(c.impl_blocks, impl_with_owned());
    lemma_count_bound(c.impl_blocks, impl_with_unsafe());
}

/// Any one of the priority prefixes, wherever it stands in the list, that
/// the chunk's module path contains lifts the chunk's score to at least
/// 1000.
pub proof fn law_every_prefix_boosts(c: AnalysisChunkV, prefixes: Seq<Seq<char>>, i: int)
    requires
        0 <= i < prefixes.len(),
        seq_contains(c.module_name, prefixes[i]),
    ensures
        score_of(c, prefixes) >= 1000,
{
    assert(any_prefix(c.module_name, prefixes));
    law_priority_prefix_boost(c, prefixes);
}

/// The priority prefixes count only through whether the module path
/// contains one of them: then they add exactly 1000 to what the chunk
/// scores with no prefixes, and otherwise nothing.
pub proof fn law_prefix_adds_thousand(c: AnalysisChunkV, prefixes: Seq<Seq<char>>)
    ensures
        (exists|i: int| 0 <= i < prefixes.len() && seq_contains(c.module_name, #[trigger] prefixes[i]))
            ==> score_of(c, prefixes) == score_of(c, Seq::empty()) + 1000,
        !(exists|i: int| 0 <= i < prefixes.len() && seq_contains(c.module_name, #[trigger] prefixes[i]))
            ==> score_of(c, prefixes) == score_of(c, Seq::empty()),
{
    assert(!any_prefix(c.module_name, Seq::<Seq<char>>::empty()));
}

proof fn lemma_count_bound<T>(s: Seq<T>, p: spec_fn(T) -> bool)
    ensures
        0 <= count_where(s, p) <= s.len(),
    decreases s.len(),
{
    if s.len() > 0 {
        lemma_count_bound(s.drop_last(), p);
    }
}

fn method_where_owned(ms: &Vec<crate::parser::ast::FunctionDef>) -> (res: bool)
    ensures
        res == exists|i: int| 0 <= i < ms@.len() && owned_receiver()(ms@[i]@),
{
    let mut i: usize = 0;
    while i < ms.len()
        invariant
            i <= ms@.len(),
            forall|k: int| 0 <= k < i ==> !owned_receiver()(#[trigger] ms@[k]@),
        decreases ms@.len() - i,
    {
        if ms[i].self_param == Some(SelfParam::Owned) {
            assert(owned_receiver()(ms@[i as int]@));
            return true;
        }
        i += 1;
    }
    false
}

fn method_where_unsafe(ms: &Vec<crate::parser::ast::FunctionDef>) -> (res: bool)
    ensures
        res == exists|i: int| 0 <= i < ms@.len() && unsafe_fn()(ms@[i]@),
{
    let mut i: usize = 0;
    while i < ms.len()
        invariant
            i <= ms@.len(),
            forall|k: int| 0 <= k < i ==> !unsafe_fn()(#[trigger] ms@[k]@),
        decreases ms@.len() - i,
    {
        if ms[i].is_unsafe {
            assert(unsafe_fn()(ms@[i as int]@));
            return true;
        }
        i += 1;
    }
    false
}

/// The priority score of a chunk (see `score_of`).
pub fn score_chunk(chunk: &AnalysisChunk, priority_prefixes: &Vec<String>) -> (res: i128)
    ensures
        res == score_of(chunk@, views(priority_prefixes@)),
{
    let ghost c = chunk@;
    let mut score: i128 = 0;
    let name = to_chars(chunk.module_name.as_str());
    let mut i: usize = 0;
    let mut hit = false;
    while i < priority_prefixes.len()
        invariant
            i <= priority_prefixes@.len(),
            name@ == chunk.module_name@,
            hit == exists|k: int| 0 <= k < i && seq_contains(chunk.module_name@, priority_prefixes@[k]@),
        decreases priority_prefixes@.len() - i,
    {
        if contains(name.as_slice(), to_chars(priority_prefixes[i].as_str()).as_slice()) {
            hit = true;
        }
        i += 1;
    }
    proof {
        let pf = views(priority_prefixes@);
        if hit {
            let k = choose|k: int| 0 <= k < i && seq_contains(chunk.module_name@, priority_prefixes@[k]@);
            assert(pf[k] == priority_prefixes@[k]@);
        }
        if any_prefix(c.module_name, pf) {
            let k = choose|k: int| 0 <= k < pf.len() && seq_contains(c.module_name, pf[k]);
            assert(pf[k] == priority_prefixes@[k]@);
        }
    }
    if hit {
        score = 1000;
    }
    let ghost base0 = score as int;
    // structs with PhantomData
    let mut n: i128 = 0;
    let mut i: usize = 0;
    while i < chunk.structs.len()
        invariant
            i <= chunk.structs@.len(),
            c == chunk@,
            n == count_where(c.structs.take(i as int), phantom_struct()),
        decreases chunk.structs@.len() - i,
    {
        proof {
            assert(c.structs.take(i + 1).drop_last() =~= c.structs.take(i as int));
            assert(c.structs.take(i + 1).last() == chunk.structs@[i as int]@);
            lemma_count_bound(c.structs.take(i as int), phantom_struct());
        }
        if chunk.structs[i].has_phantom_data {
            n = n + 1;
        }
        i += 1;
    }
    proof {
        assert(c.structs.take(c.structs.len() as int) =~= c.structs);
        lemma_count_bound(c.structs, phantom_struct());
    }
    score = score + 50 * n;
    // Drop impls, impls with owned receivers, impls with unsafe methods
    let mut drops: i128 = 0;
    let mut owned: i128 = 0;
    let mut unsafes: i128 = 0;
    let mut i: usize = 0;
    while i < chunk.impl_blocks.len()
        invariant
            i <= chunk.impl_blocks@.len(),
            c == chunk@,
            drops == count_where(c.impl_blocks.take(i as int), drop_impl()),
            owned == count_where(c.impl_blocks.take(i as int), impl_with_owned()),
            unsafes == count_where(c.impl_blocks.take(i as int), impl_with_unsafe()),
        decreases chunk.impl_blocks@.len() - i,
    {
        let ghost t = c.impl_blocks.take(i as int);
        proof {
            assert(c.impl_blocks.take(i + 1).drop_last() =~= t);
            assert(c.impl_blocks.take(i + 1).last() == chunk.impl_blocks@[i as int]@);
            lemma_count_bound(t, drop_impl());
            lemma_count_bound(t, impl_with_owned());
            lemma_count_bound(t, impl_with_unsafe());
        }
        let b = &chunk.impl_blocks[i];
        let is_drop = match &b.trait_name {
            Some(tn) => str_eq(tn.as_str(), "Drop"),
            None => false,
        };
        if is_drop {
            drops = drops + 1;
        }
        let o = method_where_owned(&b.methods);
        proof {
            assert(o == impl_with_owned()(b@)) by {
                if o {
                    let k = choose|k: int| 0 <= k < b.methods@.len() && owned_receiver()(b.methods@[k]@);
                    assert(b@.methods[k] == b.methods@[k]@);
                }
                if impl_with_owned()(b@) {
                    let k = choose|k: int| 0 <= k < b@.methods.len() && owned_receiver()(b@.methods[k]);
                    assert(b@.methods[k] == b.methods@[k]@);
                }
            }
        }
        if o {
            owned = owned + 1;
        }
        let u = method_where_unsafe(&b.methods);
        proof {
            assert(u == impl_with_unsafe()(b@)) by {
                if u {
                    let k = choose|k: int| 0 <= k < b.methods@.len() && unsafe_fn()(b.methods@[k]@);
                    assert(b@.methods[k] == b.methods@[k]@);
                }
                if impl_with_unsafe()(b@) {
                    let k = choose|k: int| 0 <= k < b@.methods.len() && unsafe_fn()(b@.methods[k]);
                    assert(b@.methods[k] == b.methods@[k]@);
                }
            }
        }
        if u {
            unsafes = unsafes + 1;
        }
        i += 1;
    }
    proof {
        assert(c.impl_blocks.take(c.impl_blocks.len() as int) =~= c.impl_blocks);
        lemma_count_bound(c.impl_blocks, drop_impl());
        lemma_count_bound(c.impl_blocks, impl_with_owned());
        lemma_count_bound(c.impl_blocks, impl_with_unsafe());
    }
    score = score + 40 * drops + 30 * owned + 20 * unsafes;
    // unsafe free functions
    let mut any_unsafe = false;
    let mut i: usize = 0;
    while i < chunk.functions.len()
        invariant
            i <= chunk.functions@.len(),
            any_unsafe == exists|k: int| 0 <= k < i && chunk.functions@[k].is_unsafe,
        decreases chunk.functions@.len() - i,
    {
        if chunk.functions[i].is_unsafe {
            any_unsafe = true;
        }
        i += 1;
    }
    proof {
        if any_unsafe {
            let k = choose|k: int| 0 <= k < i && chunk.functions@[k].is_unsafe;
            assert(c.functions[k] == chunk.functions@[k]@);
        }
        if exists|k: int| 0 <= k < c.functions.len() && c.functions[k].is_unsafe {
            let k = choose|k: int| 0 <= k < c.functions.len() && c.functions[k].is_unsafe;
            assert(c.functions[k] == chunk.functions@[k]@);
        }
    }
    if any_unsafe {
        score = score + 20;
    }
    // keywords in the lowercased source
    let lower = to_lowercase(chunk.raw_source.as_str());
    let lc = to_chars(lower.as_str());
    if contains_str(lc.as_slice(), "safety") || contains_str(lc.as_slice(), "must")
        || contains_str(lc.as_slice(), "invariant") || contains_str(lc.as_slice(), "precondition") {
        score = score + 10;
    }
    score
}

// ---------------------------------------------------------------------------
// Ordering
// ---------------------------------------------------------------------------

/// `x` put into `s` behind every element that scores at least as high,
/// searching from the end.
pub open spec fn insert_desc(s: Seq<AnalysisChunkV>, x: AnalysisChunkV, pf: Seq<Seq<char>>) -> Seq<AnalysisChunkV>
    decreases s.len(),
{
    if s.len() == 0 {
        seq![x]
    } else if score_of(s.last(), pf) >= score_of(x, pf) {
        s.push(x)
    } else {
        insert_desc(s.drop_last(), x, pf).push(s.last())
    }
}

/// The chunks ordered by decreasing score, equal scores keeping their order.
pub open spec fn sort_desc(s: Seq<AnalysisChunkV>, pf: Seq<Seq<char>>) -> Seq<AnalysisChunkV>
    decreases s.len(),
{
    if s.len() == 0 {
        s
    } else {
        insert_desc(sort_desc(s.drop_last(), pf), s.last(), pf)
    }
}

/// Inserting where the search from the end stops.
proof fn lemma_insert_at(s: Seq<AnalysisChunkV>, x: AnalysisChunkV, pf: Seq<Seq<char>>, p: int)
    requires
        0 <= p <= s.len(),
        forall|k: int| p <= k < s.len() ==> score_of(#[trigger] s[k], pf) < score_of(x, pf),
        p > 0 ==> score_of(s[p - 1], pf) >= score_of(x, pf),
    ensures
        insert_desc(s, x, pf) == s.take(p).push(x) + s.skip(p),
    decreases s.len(),
{
    if s.len() == 0 {
        assert(s.take(p).push(x) + s.skip(p) =~= seq![x]);
    } else if p == s.len() {
        assert(s.take(p).push(x) + s.skip(p) =~= s.push(x));
    } else {
        let t = s.drop_last();
        assert forall|k: int| p <= k < t.len() implies score_of(#[trigger] t[k], pf) < score_of(x, pf) by {
            assert(t[k] == s[k]);
        }
        if p > 0 {
            assert(t[p - 1] == s[p - 1]);
        }
        lemma_insert_at(t, x, pf, p);
        assert(s.take(p).push(x) + s.skip(p) =~= (t.take(p).push(x) + t.skip(p)).push(s.last()));
    }
}

fn take_first(v: &mut Vec<AnalysisChunk>) -> (res: AnalysisChunk)
    requires
        old(v)@.len() > 0,
    ensures
        res == old(v)@[0],
        final(v)@ == old(v)@.remove(0),
{
    v.remove(0)
}

/// Orders chunks by decreasing priority score (see `score_of`); chunks with
/// equal scores keep their order.
pub fn prioritize_chunks(chunks: Vec<AnalysisChunk>, priority_prefixes: &Vec<String>) -> (res: Vec<AnalysisChunk>)
    ensures
        views(res@) == sort_desc(views(chunks@), views(priority_prefixes@)),
{
    let ghost input = views(chunks@);
    let ghost pf = views(priority_prefixes@);
    let mut rest = chunks;
    let mut out: Vec<AnalysisChunk> = Vec::new();
    let mut scores: Vec<i128> = Vec::new();
    let n = rest.len();
    let mut i: usize = 0;
    while i < n
        invariant
            i <= n == input.len(),
            pf == views(priority_prefixes@),
            rest@.len() == n - i,
            forall|k: int| 0 <= k < n - i ==> (#[trigger] rest@[k])@ == input[i + k],
            views(out@) == sort_desc(input.take(i as int), pf),
            scores@.len() == out@.len(),
            forall|k: int| 0 <= k < out@.len() ==> #[trigger] scores@[k] == score_of(out@[k]@, pf),
        decreases n - i,
    {
        let ghost before_rest = rest@;
        let c = take_first(&mut rest);
        proof {
            assert(c@ == input[i as int]);
            assert forall|k: int| 0 <= k < n - (i + 1) implies (#[trigger] rest@[k])@ == input[i + 1 + k] by {
                assert(rest@[k] == before_rest[k + 1]);
            }
        }
        let sc = score_chunk(&c, priority_prefixes);
        let mut p = out.len();
        while p > 0 && scores[p - 1] < sc
            invariant
                p <= out@.len() == scores@.len(),
                forall|k: int| 0 <= k < out@.len() ==> #[trigger] scores@[k] == score_of(out@[k]@, pf),
                forall|k: int| p <= k < out@.len() ==> scores@[k] < sc,
            decreases p,
        {
            p -= 1;
        }
        let ghost sorted = views(out@);
        proof {
            assert forall|k: int| p <= k < sorted.len() implies score_of(#[trigger] sorted[k], pf) < score_of(c@, pf) by {
                assert(scores@[k] < sc);
            }
            if p > 0 {
                assert(scores@[p - 1] >= sc);
            }
            lemma_insert_at(sorted, c@, pf, p as int);
            assert(input.take(i + 1).drop_last() =~= input.take(i as int));
            assert(input.take(i + 1).last() == c@);
        }
        let ghost old_scores = scores@;
        let ghost old_out = out@;
        out.insert(p, c);
        scores.insert(p, sc);
        proof {
            assert(views(out@) =~= sorted.take(p as int).push(c@) + sorted.skip(p as int));
            assert forall|k: int| 0 <= k < out@.len() implies #[trigger] scores@[k] == score_of(out@[k]@, pf) by {
                if k < p {
                    assert(scores@[k] == old_scores[k]);
                    assert(out@[k] == old_out[k]);
                } else if k > p {
                    assert(scores@[k] == old_scores[k - 1]);
                    assert(out@[k] == old_out[k - 1]);
                }
            }
        }
        i += 1;
    }
    proof {
        assert(input.take(n as int) =~= input);
    }
    out
}

// ---------------------------------------------------------------------------
// Laws of the ordering
// ---------------------------------------------------------------------------

/// The chunks are in order of non-increasing score.
pub open spec fn sorted_desc(s: Seq<AnalysisChunkV>, pf: Seq<Seq<char>>) -> bool {
    forall|i: int, j: int| 0 <= i < j < s.len() ==> score_of(s[i], pf) >= score_of(s[j], pf)
}

proof fn lemma_insert_sorted(s: Seq<AnalysisChunkV>, x: AnalysisChunkV, pf: Seq<Seq<char>>)
    requires
        sorted_desc(s, pf),
    ensures
        sorted_desc(insert_desc(s, x, pf), pf),
        insert_desc(s, x, pf).to_multiset() == s.to_multiset().insert(x),
    decreases s.len(),
{
    broadcast use vstd::multiset::group_multiset_axioms;
    broadcast use vstd::seq_lib::group_to_multiset_ensures;
    if s.len() == 0 {
        assert(seq![x] =~= Seq::<AnalysisChunkV>::empty().push(x));
    } else if score_of(s.last(), pf) >= score_of(x, pf) {
    } else {
        let t = s.drop_last();
        assert(sorted_desc(t, pf));
        lemma_insert_sorted(t, x, pf);
        let r = insert_desc(t, x, pf);
        assert(s =~= t.push(s.last()));
        // every element of r scores at least as high as s.last()
        assert forall|i: int| 0 <= i < r.len() implies score_of(#[trigger] r[i], pf) >= score_of(s.last(), pf) by {
            assert(r.to_multiset().count(r[i]) > 0);
            assert(t.to_multiset().insert(x).count(r[i]) > 0);
            if r[i] != x {
                assert(t.to_multiset().count(r[i]) > 0);
                assert(t.contains(r[i]));
                let k = choose|k: int| 0 <= k < t.len() && t[k] == r[i];
                assert(s[k] == t[k]);
            }
        }
    }
}

/// Ordering by priority sorts the chunks by non-increasing score.
pub proof fn law_prioritized_sorted(s: Seq<AnalysisChunkV>, pf: Seq<Seq<char>>)
    ensures
        sorted_desc(sort_desc(s, pf), pf),
    decreases s.len(),
{
    if s.len() > 0 {
        law_prioritized_sorted(s.drop_last(), pf);
        lemma_insert_sorted(sort_desc(s.drop_last(), pf), s.last(), pf);
    }
}

/// Ordering by priority keeps every chunk, and adds none: the result holds
/// the same chunks as the input, each as often.
pub proof fn law_prioritized_permutation(s: Seq<AnalysisChunkV>, pf: Seq<Seq<char>>)
    ensures
        sort_desc(s, pf).to_multiset() == s.to_multiset(),
    decreases s.len(),
{
    broadcast use vstd::seq_lib::group_to_multiset_ensures;
    if s.len() > 0 {
        law_prioritized_permutation(s.drop_last(), pf);
        law_prioritized_sorted(s.drop_last(), pf);
        lemma_insert_sorted(sort_desc(s.drop_last(), pf), s.last(), pf);
        assert(s =~= s.drop_last().push(s.last()));
    }
}

/// The chunks of score `k`.
pub open spec fn with_score(pf: Seq<Seq<char>>, k: int) -> spec_fn(AnalysisChunkV) -> bool {
    |c: AnalysisChunkV| score_of(c, pf) == k
}

proof fn lemma_insert_filter(t: Seq<AnalysisChunkV>, x: AnalysisChunkV, pf: Seq<Seq<char>>, k: int)
    ensures
        insert_desc(t, x, pf).filter(with_score(pf, k)) == (if score_of(x, pf) == k {
            t.filter(with_score(pf, k)).push(x)
        } else {
            t.filter(with_score(pf, k))
        }),
    decreases t.len(),
{
    reveal(Seq::filter);
    let p = with_score(pf, k);
    if t.len() == 0 {
        assert(seq![x].drop_last() =~= t);
        assert(seq![x].last() == x);
    } else if score_of(t.last(), pf) >= score_of(x, pf) {
        assert(t.push(x).drop_last() =~= t);
        assert(t.push(x).last() == x);
    } else {
        let u = t.drop_last();
        lemma_insert_filter(u, x, pf, k);
        let r = insert_desc(u, x, pf);
        assert(r.push(t.last()).drop_last() =~= r);
        assert(r.push(t.last()).last() == t.last());
        if p(x) {
            assert(!p(t.last()));
        }
    }
}

/// Ordering by priority is stable: the chunks of any one score come out in
/// the order they came in.
pub proof fn law_prioritized_stable(s: Seq<AnalysisChunkV>, pf: Seq<Seq<char>>, k: int)
    ensures
        sort_desc(s, pf).filter(with_score(pf, k)) == s.filter(with_score(pf, k)),
    decreases s.len(),
{
    reveal(Seq::filter);
    if s.len() > 0 {
        law_prioritized_stable(s.drop_last(), pf, k);
        lemma_insert_filter(sort_desc(s.drop_last(), pf), s.last(), pf, k);
    }
}

} // verus!
