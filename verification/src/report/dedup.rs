//! Removing duplicate invariants, in two phases. Exact: invariants with the
//! same entity, title (both compared lowercased, whitespace collapsed) and
//! kind are one; the most confident is kept, then the one with the longest
//! code snippet, then the first. Fuzzy: an invariant of the same entity and
//! kind as an earlier kept one, whose title shares over 60% of its words
//! with that one's and the other way round, is dropped.
use vstd::prelude::*;
use crate::dup::{Dup, views};
use crate::navigation::priority::{lowercase, to_lowercase};
use crate::report::types::{Confidence, Invariant, InvariantType, InvariantV};
use crate::text::{
    byte_len, is_ws, sat, seq_join, str_byte_len_sat, is_whitespace, join, push_str, to_chars,
    from_chars, chars_eq,
};

verus! {

/// The whitespace-separated words of `s` (`str::split_whitespace`).
pub open spec fn words(s: Seq<char>) -> Seq<Seq<char>>
    decreases s.len(),
{
    if s.len() == 0 {
        Seq::empty()
    } else if is_ws(s[0]) {
        words(s.skip(1))
    } else {
        let w = word_len(s);
        proof {
            lemma_word_len(s);
        }
        seq![s.take(w as int)] + words(s.skip(w as int))
    }
}

/// The length of the run of non-whitespace characters that starts `s`.
pub open spec fn word_len(s: Seq<char>) -> nat
    decreases s.len(),
{
    if s.len() == 0 || is_ws(s[0]) {
        0
    } else {
        1 + word_len(s.skip(1))
    }
}

pub proof fn lemma_word_len(s: Seq<char>)
    ensures
        word_len(s) <= s.len(),
        s.len() > 0 && !is_ws(s[0]) ==> word_len(s) > 0,
        forall|k: int| 0 <= k < word_len(s) ==> !is_ws(#[trigger] s[k]),
        word_len(s) < s.len() ==> is_ws(s[word_len(s) as int]),
    decreases s.len(),
{
    if s.len() > 0 && !is_ws(s[0]) {
        lemma_word_len(s.skip(1));
        assert forall|k: int| 0 <= k < word_len(s) implies !is_ws(#[trigger] s[k]) by {
            if k > 0 {
                assert(s.skip(1)[k - 1] == s[k]);
            }
        }
        if word_len(s) < s.len() {
            assert(s.skip(1)[word_len(s) - 1] == s[word_len(s) as int]);
        }
    }
}

/// A text lowercased, with its words joined by single spaces.
pub open spec fn normalized(s: Seq<char>) -> Seq<char> {
    seq_join(words(lowercase(s)), " "@)
}

/// How the kind is printed with `{:?}`.
pub open spec fn kind_name(t: InvariantType) -> Seq<char> {
    match t {
        InvariantType::TemporalOrdering => "TemporalOrdering"@,
        InvariantType::ResourceLifecycle => "ResourceLifecycle"@,
        InvariantType::StateMachine => "StateMachine"@,
        InvariantType::Precondition => "Precondition"@,
        InvariantType::Protocol => "Protocol"@,
    }
}

/// The key under which duplicates are found: normalized entity, normalized
/// title and kind.
pub open spec fn dedup_key(inv: InvariantV) -> Seq<char> {
    normalized(inv.entity) + "|"@ + normalized(inv.title) + "|"@ + kind_name(inv.invariant_type)
}

pub open spec fn rank(c: Confidence) -> int {
    match c {
        Confidence::High => 3,
        Confidence::Medium => 2,
        Confidence::Low => 1,
    }
}

/// `a` is to be kept over `b`: it is more confident, or as confident with a
/// longer code snippet.
pub open spec fn better(a: InvariantV, b: InvariantV) -> bool {
    rank(a.confidence) > rank(b.confidence) || (rank(a.confidence) == rank(b.confidence)
        && sat(byte_len(a.evidence.code_snippet) as int) > sat(byte_len(b.evidence.code_snippet) as int))
}

/// The invariants kept so far, one per key, in the order their keys first
/// came.
pub open spec fn dedup_run(invs: Seq<InvariantV>) -> Seq<InvariantV>
    decreases invs.len(),
{
    if invs.len() == 0 {
        Seq::empty()
    } else {
        let kept = dedup_run(invs.drop_last());
        let x = invs.last();
        match key_index(kept, dedup_key(x)) {
            Some(i) => if better(x, kept[i]) {
                kept.update(i, x)
            } else {
                kept
            },
            None => kept.push(x),
        }
    }
}

/// The position of the invariant with the given key.
pub open spec fn key_index(kept: Seq<InvariantV>, key: Seq<char>) -> Option<int>
    decreases kept.len(),
{
    if kept.len() == 0 {
        None
    } else {
        match key_index(kept.drop_last(), key) {
            Some(i) => Some(i),
            None => if dedup_key(kept.last()) == key {
                Some(kept.len() - 1)
            } else {
                None
            },
        }
    }
}

fn words_exec(s: &[char]) -> (res: Vec<String>)
    ensures
        views(res@) == words(s@),
{
    let mut out: Vec<String> = Vec::new();
    let mut i: usize = 0;
    assert(s@.skip(0) =~= s@);
    while i < s.len()
        invariant
            i <= s@.len(),
            views(out@) + words(s@.skip(i as int)) == words(s@),
        decreases s@.len() - i,
    {
        let ghost t = s@.skip(i as int);
        if is_whitespace(s[i]) {
            proof {
                assert(t.skip(1) =~= s@.skip(i + 1));
            }
            i += 1;
        } else {
            let mut j = i;
            while j < s.len() && !is_whitespace(s[j])
                invariant
                    i <= j <= s@.len(),
                    forall|k: int| i <= k < j ==> !is_ws(s@[k]),
                decreases s@.len() - j,
            {
                j += 1;
            }
            proof {
                lemma_word_len(t);
                let w = word_len(t);
                assert(w == j - i) by {
                    if w < j - i {
                        assert(is_ws(t[w as int]));
                        assert(t[w as int] == s@[i + w]);
                    }
                    if w > j - i {
                        assert(!is_ws(t[(j - i) as int]));
                        assert(t[(j - i) as int] == s@[j as int]);
                    }
                }
                assert(t.take(w as int) =~= s@.subrange(i as int, j as int));
                assert(t.skip(w as int) =~= s@.skip(j as int));
            }
            let word = crate::text::slice_range(s, i, j);
            let ghost before = views(out@);
            out.push(from_chars(word.as_slice()));
            proof {
                assert(views(out@) =~= before.push(word@));
                assert(before.push(word@) + words(s@.skip(j as int)) =~= before + (seq![word@] + words(s@.skip(j as int))));
            }
            i = j;
        }
    }
    proof {
        assert(s@.skip(s@.len() as int) =~= Seq::<char>::empty());
        assert(views(out@) + Seq::<Seq<char>>::empty() =~= views(out@));
    }
    out
}

fn normalize(s: &str) -> (res: String)
    ensures
        res@ == normalized(s@),
{
    let lower = to_lowercase(s);
    let ws = words_exec(to_chars(lower.as_str()).as_slice());
    join(&ws, " ")
}

fn kind_text(t: InvariantType) -> (res: &'static str)
    ensures
        res@ == kind_name(t),
{
    match t {
        InvariantType::TemporalOrdering => "TemporalOrdering",
        InvariantType::ResourceLifecycle => "ResourceLifecycle",
        InvariantType::StateMachine => "StateMachine",
        InvariantType::Precondition => "Precondition",
        InvariantType::Protocol => "Protocol",
    }
}

/// The key under which duplicates of `inv` are found.
pub fn normalize_dedup_key(inv: &Invariant) -> (res: String)
    ensures
        res@ == dedup_key(inv@),
{
    let mut k = normalize(inv.entity.as_str());
    push_str(&mut k, "|");
    let t = normalize(inv.title.as_str());
    push_str(&mut k, t.as_str());
    push_str(&mut k, "|");
    push_str(&mut k, kind_text(inv.invariant_type));
    k
}

fn rank_of(c: Confidence) -> (res: u8)
    ensures
        res == rank(c),
{
    match c {
        Confidence::High => 3,
        Confidence::Medium => 2,
        Confidence::Low => 1,
    }
}

fn is_better(a: &Invariant, b: &Invariant) -> (res: bool)
    ensures
        res == better(a@, b@),
{
    let ra = rank_of(a.confidence);
    let rb = rank_of(b.confidence);
    ra > rb || (ra == rb && str_byte_len_sat(a.evidence.code_snippet.as_str()) > str_byte_len_sat(
        b.evidence.code_snippet.as_str(),
    ))
}

proof fn lemma_key_index(kept: Seq<InvariantV>, key: Seq<char>)
    ensures
        match key_index(kept, key) {
            Some(i) => 0 <= i < kept.len() && dedup_key(kept[i]) == key && forall|k: int|
                0 <= k < i ==> dedup_key(#[trigger] kept[k]) != key,
            None => forall|k: int| 0 <= k < kept.len() ==> dedup_key(#[trigger] kept[k]) != key,
        },
    decreases kept.len(),
{
    if kept.len() > 0 {
        let p = kept.drop_last();
        lemma_key_index(p, key);
        assert forall|k: int| 0 <= k < p.len() implies p[k] == kept[k] by {}
    }
}

/// The exact phase: of the invariants that share a key (see
/// `normalize_dedup_key`), the most confident is kept, then the one with the
/// longest code snippet, then the first. The kept invariants come in the
/// order their keys first appear.
fn dedup_exact(invariants: Vec<Invariant>) -> (res: Vec<Invariant>)
    ensures
        views(res@) == dedup_run(views(invariants@)),
{
    let ghost iv = views(invariants@);
    let mut kept: Vec<Invariant> = Vec::new();
    let mut keys: Vec<String> = Vec::new();
    let mut i: usize = 0;
    while i < invariants.len()
        invariant
            i <= invariants@.len(),
            iv == views(invariants@),
            views(kept@) == dedup_run(iv.take(i as int)),
            keys@.len() == kept@.len(),
            forall|k: int| 0 <= k < keys@.len() ==> #[trigger] keys@[k]@ == dedup_key(kept@[k]@),
        decreases invariants@.len() - i,
    {
        proof {
            assert(iv.take(i + 1).drop_last() =~= iv.take(i as int));
            assert(iv.take(i + 1).last() == invariants@[i as int]@);
        }
        let x = &invariants[i];
        let key = normalize_dedup_key(x);
        let ghost kv = views(kept@);
        proof {
            lemma_key_index(kv, key@);
        }
        let mut j: usize = 0;
        while j < keys.len() && !chars_eq(to_chars(keys[j].as_str()).as_slice(), to_chars(key.as_str()).as_slice())
            invariant
                j <= keys@.len() == kept@.len(),
                kv == views(kept@),
                forall|k: int| 0 <= k < keys@.len() ==> #[trigger] keys@[k]@ == dedup_key(kept@[k]@),
                forall|k: int| 0 <= k < j ==> dedup_key(#[trigger] kv[k]) != key@,
            decreases keys@.len() - j,
        {
            proof {
                assert(kv[j as int] == kept@[j as int]@);
            }
            j += 1;
        }
        if j < keys.len() {
            proof {
                assert(kv[j as int] == kept@[j as int]@);
                assert(key_index(kv, key@) == Some(j as int));
            }
            if is_better(x, &kept[j]) {
                let ghost before = views(kept@);
                kept.set(j, x.dup());
                proof {
                    assert(views(kept@) =~= before.update(j as int, x@));
                    assert forall|k: int| 0 <= k < keys@.len() implies #[trigger] keys@[k]@ == dedup_key(kept@[k]@) by {
                        if k == j {
                            assert(kept@[k]@ == x@);
                        }
                    }
                }
            }
        } else {
            proof {
                assert(key_index(kv, key@) is None);
            }
            let ghost before = views(kept@);
            kept.push(x.dup());
            keys.push(key);
            proof {
                assert(views(kept@) =~= before.push(x@));
            }
        }
        i += 1;
    }
    proof {
        assert(iv.take(iv.len() as int) =~= iv);
    }
    kept
}

// ---------------------------------------------------------------------------
// Laws of duplicate removal
// ---------------------------------------------------------------------------

/// No two invariants share a key.
pub open spec fn keys_distinct(s: Seq<InvariantV>) -> bool {
    forall|i: int, j: int| 0 <= i < j < s.len() ==> dedup_key(s[i]) != dedup_key(s[j])
}

/// One step of duplicate removal: the kept invariants after one more.
proof fn lemma_step(p: Seq<InvariantV>, x: InvariantV)
    ensures
        ({
            let kept = dedup_run(p);
            let r = dedup_run(p.push(x));
            &&& r.len() == kept.len() || r.len() == kept.len() + 1
            &&& forall|k: int| 0 <= k < kept.len() ==> dedup_key(#[trigger] r[k]) == dedup_key(kept[k])
            &&& forall|k: int| 0 <= k < kept.len() ==> (#[trigger] r[k] == kept[k] || (r[k] == x && better(x, kept[k])))
            &&& r.len() == kept.len() + 1 ==> r[kept.len() as int] == x && forall|k: int| 0 <= k < kept.len() ==> dedup_key(#[trigger] kept[k]) != dedup_key(x)
            &&& r.len() == kept.len() ==> exists|i: int| 0 <= i < kept.len() && dedup_key(#[trigger] kept[i]) == dedup_key(x) && (better(x, kept[i]) ==> r[i] == x)
        }),
{
    let kept = dedup_run(p);
    let s = p.push(x);
    assert(s.drop_last() =~= p);
    assert(s.last() == x);
    lemma_key_index(kept, dedup_key(x));
}

/// Removing duplicates leaves invariants with distinct keys, no more than
/// there were.
pub proof fn law_dedup_distinct(s: Seq<InvariantV>)
    ensures
        keys_distinct(dedup_run(s)),
        dedup_run(s).len() <= s.len(),
    decreases s.len(),
{
    if s.len() > 0 {
        let p = s.drop_last();
        let x = s.last();
        law_dedup_distinct(p);
        lemma_step(p, x);
        assert(s =~= p.push(x));
        let kept = dedup_run(p);
        let r = dedup_run(s);
        assert forall|a: int, b: int| 0 <= a < b < r.len() implies dedup_key(r[a]) != dedup_key(r[b]) by {
            if b < kept.len() {
                assert(dedup_key(r[a]) == dedup_key(kept[a]));
                assert(dedup_key(r[b]) == dedup_key(kept[b]));
            } else {
                assert(dedup_key(r[a]) == dedup_key(kept[a]));
            }
        }
    }
}

/// Every invariant kept was in the input.
pub proof fn law_dedup_from_input(s: Seq<InvariantV>)
    ensures
        forall|k: int| 0 <= k < dedup_run(s).len() ==> s.contains(#[trigger] dedup_run(s)[k]),
    decreases s.len(),
{
    if s.len() > 0 {
        let p = s.drop_last();
        let x = s.last();
        law_dedup_from_input(p);
        lemma_step(p, x);
        assert(s =~= p.push(x));
        let kept = dedup_run(p);
        let r = dedup_run(s);
        assert forall|k: int| 0 <= k < r.len() implies s.contains(#[trigger] r[k]) by {
            if r[k] == x {
                assert(s[s.len() - 1] == x);
            } else {
                assert(r[k] == kept[k]);
                assert(p.contains(kept[k]));
                let m = choose|m: int| 0 <= m < p.len() && p[m] == kept[k];
                assert(s[m] == p[m]);
            }
        }
    }
}

/// Every key of the input keeps an invariant.
pub proof fn law_dedup_covers(s: Seq<InvariantV>)
    ensures
        forall|y: InvariantV| s.contains(y) ==> exists|k: int| 0 <= k < dedup_run(s).len() && dedup_key(#[trigger] dedup_run(s)[k]) == dedup_key(y),
    decreases s.len(),
{
    if s.len() > 0 {
        let p = s.drop_last();
        let x = s.last();
        law_dedup_covers(p);
        lemma_step(p, x);
        assert(s =~= p.push(x));
        let kept = dedup_run(p);
        let r = dedup_run(s);
        assert forall|y: InvariantV| s.contains(y) implies exists|k: int| 0 <= k < r.len() && dedup_key(#[trigger] r[k]) == dedup_key(y) by {
            let m = choose|m: int| 0 <= m < s.len() && s[m] == y;
            if m == s.len() - 1 {
                if r.len() == kept.len() + 1 {
                    assert(dedup_key(r[kept.len() as int]) == dedup_key(y));
                } else {
                    let i = choose|i: int| 0 <= i < kept.len() && dedup_key(#[trigger] kept[i]) == dedup_key(x) && (better(x, kept[i]) ==> r[i] == x);
                    assert(dedup_key(r[i]) == dedup_key(y));
                }
            } else {
                assert(p[m] == y);
                assert(p.contains(y));
                let k = choose|k: int| 0 <= k < kept.len() && dedup_key(#[trigger] kept[k]) == dedup_key(y);
                assert(dedup_key(r[k]) == dedup_key(y));
            }
        }
    }
}

/// No invariant of the input is to be preferred over the one kept for its
/// key: the one kept is at least as confident, and among the most
/// confident has a code snippet at least as long.
pub proof fn law_dedup_best(s: Seq<InvariantV>)
    ensures
        forall|k: int, y: InvariantV| #![trigger dedup_run(s)[k], s.contains(y)] 0 <= k < dedup_run(s).len() && s.contains(y)
            && dedup_key(y) == dedup_key(dedup_run(s)[k]) ==> !better(y, dedup_run(s)[k]),
    decreases s.len(),
{
    if s.len() > 0 {
        let p = s.drop_last();
        let x = s.last();
        law_dedup_best(p);
        law_dedup_distinct(p);
        lemma_step(p, x);
        assert(s =~= p.push(x));
        let kept = dedup_run(p);
        let r = dedup_run(s);
        assert forall|k: int, y: InvariantV| #![trigger r[k], s.contains(y)] 0 <= k < r.len() && s.contains(y) && dedup_key(y) == dedup_key(r[k])
            implies !better(y, r[k]) by {
            let m = choose|m: int| 0 <= m < s.len() && s[m] == y;
            if m == s.len() - 1 {
                // y is x
                if k < kept.len() {
                    if r[k] != x {
                        assert(r[k] == kept[k]);
                        if r.len() == kept.len() + 1 {
                            assert(dedup_key(kept[k]) != dedup_key(x));
                        } else {
                            let i = choose|i: int| 0 <= i < kept.len() && dedup_key(#[trigger] kept[i]) == dedup_key(x) && (better(x, kept[i]) ==> r[i] == x);
                            if i != k {
                                assert(dedup_key(kept[i]) != dedup_key(kept[k]));
                            }
                        }
                    }
                }
            } else {
                assert(p[m] == y);
                assert(p.contains(y));
                if k < kept.len() {
                    assert(!better(y, kept[k]));
                } else {
                    assert(r[k] == x);
                    law_dedup_covers(p);
                    let j2 = choose|j2: int| 0 <= j2 < kept.len() && dedup_key(#[trigger] kept[j2]) == dedup_key(y);
                    assert(dedup_key(kept[j2]) != dedup_key(x));
                }
            }
        }
    }
}

/// Removing duplicates from invariants whose keys are all distinct changes
/// nothing.
pub proof fn lemma_dedup_distinct(s: Seq<InvariantV>)
    requires
        keys_distinct(s),
    ensures
        dedup_run(s) == s,
    decreases s.len(),
{
    if s.len() > 0 {
        let p = s.drop_last();
        assert(keys_distinct(p));
        lemma_dedup_distinct(p);
        lemma_key_index(p, dedup_key(s.last()));
        assert(dedup_run(s) =~= p.push(s.last()));
    }
}

// ---------------------------------------------------------------------------
// The fuzzy phase
// ---------------------------------------------------------------------------

/// The words of a title, lowercased.
pub open spec fn title_words(inv: InvariantV) -> Seq<Seq<char>> {
    words(lowercase(inv.title))
}

/// How many of the words of `a` (counted with repeats) occur in `b`.
pub open spec fn shared(a: Seq<Seq<char>>, b: Seq<Seq<char>>) -> nat
    decreases a.len(),
{
    if a.len() == 0 {
        0
    } else {
        shared(a.drop_last(), b) + if b.contains(a.last()) {
            1nat
        } else {
            0nat
        }
    }
}

/// Two titles overlap by more than 60%: over 60% of the words of each occur
/// in the other.
pub open spec fn similar_titles(a: Seq<Seq<char>>, b: Seq<Seq<char>>) -> bool {
    10 * shared(a, b) > 6 * a.len() && 10 * shared(b, a) > 6 * b.len()
}

/// `b` is a near duplicate of `a`: the same entity (normalized) and kind,
/// and titles that overlap by more than 60%.
pub open spec fn near_duplicate(a: InvariantV, b: InvariantV) -> bool {
    &&& normalized(a.entity) == normalized(b.entity)
    &&& a.invariant_type == b.invariant_type
    &&& similar_titles(title_words(a), title_words(b))
}

/// The fuzzy phase: taking the invariants in order, one that is a near
/// duplicate of an invariant already kept is dropped.
pub open spec fn fuzzy_run(s: Seq<InvariantV>) -> Seq<InvariantV>
    decreases s.len(),
{
    if s.len() == 0 {
        Seq::empty()
    } else {
        let kept = fuzzy_run(s.drop_last());
        let x = s.last();
        if exists|k: int| 0 <= k < kept.len() && near_duplicate(#[trigger] kept[k], x) {
            kept
        } else {
            kept.push(x)
        }
    }
}

/// Both phases: the exact key, then the fuzzy title overlap.
pub open spec fn dedup_all(s: Seq<InvariantV>) -> Seq<InvariantV> {
    fuzzy_run(dedup_run(s))
}

/// What the fuzzy phase compares of a kept invariant: its normalized entity,
/// its title's words and its kind.
struct FuzzyKey {
    entity: String,
    words: Vec<String>,
    kind: InvariantType,
}

spec fn fuzzy_key_of(k: FuzzyKey, inv: InvariantV) -> bool {
    &&& k.entity@ == normalized(inv.entity)
    &&& views(k.words@) == title_words(inv)
    &&& k.kind == inv.invariant_type
}

fn fuzzy_key(inv: &Invariant) -> (res: FuzzyKey)
    ensures
        fuzzy_key_of(res, inv@),
{
    let lower = to_lowercase(inv.title.as_str());
    FuzzyKey {
        entity: normalize(inv.entity.as_str()),
        words: words_exec(to_chars(lower.as_str()).as_slice()),
        kind: inv.invariant_type,
    }
}

fn shared_count(a: &Vec<String>, b: &Vec<String>) -> (res: usize)
    ensures
        res == shared(views(a@), views(b@)),
{
    let ghost va = views(a@);
    let mut n: usize = 0;
    let mut i: usize = 0;
    assert(va.take(0) =~= Seq::<Seq<char>>::empty());
    while i < a.len()
        invariant
            i <= a@.len(),
            va == views(a@),
            n == shared(va.take(i as int), views(b@)),
            n <= i,
        decreases a@.len() - i,
    {
        proof {
            assert(va.take(i + 1).drop_last() =~= va.take(i as int));
            assert(va.take(i + 1).last() == a@[i as int]@);
        }
        if crate::text::contains_string(b, a[i].as_str()) {
            n += 1;
        }
        i += 1;
    }
    assert(va.take(i as int) =~= va);
    n
}

fn near_duplicate_exec(a: &FuzzyKey, b: &FuzzyKey) -> (res: bool)
    ensures
        forall|x: InvariantV, y: InvariantV| fuzzy_key_of(*a, x) && fuzzy_key_of(*b, y) ==> res == near_duplicate(x, y),
{
    if !crate::text::str_eq(a.entity.as_str(), b.entity.as_str()) || a.kind != b.kind {
        return false;
    }
    let sab = shared_count(&a.words, &b.words) as u128;
    let sba = shared_count(&b.words, &a.words) as u128;
    let la = a.words.len() as u128;
    let lb = b.words.len() as u128;
    10 * sab > 6 * la && 10 * sba > 6 * lb
}

/// The fuzzy phase over the invariants the exact phase kept.
fn dedup_fuzzy(invariants: Vec<Invariant>) -> (res: Vec<Invariant>)
    ensures
        views(res@) == fuzzy_run(views(invariants@)),
{
    let ghost iv = views(invariants@);
    let mut kept: Vec<Invariant> = Vec::new();
    let mut keys: Vec<FuzzyKey> = Vec::new();
    assert(iv.take(0) =~= Seq::<InvariantV>::empty());
    assert(views(kept@) =~= Seq::<InvariantV>::empty());
    for x in it: invariants
        invariant
            iv == views(it.seq()),
            views(kept@) == fuzzy_run(iv.take(it.index() as int)),
            keys@.len() == kept@.len(),
            forall|k: int| 0 <= k < keys@.len() ==> fuzzy_key_of(#[trigger] keys@[k], kept@[k]@),
    {
        let ghost i = it.index();
        let ghost kv = views(kept@);
        proof {
            assert(iv.take(i + 1).drop_last() =~= iv.take(i as int));
            assert(iv.take(i + 1).last() == x@);
        }
        let key = fuzzy_key(&x);
        let mut j: usize = 0;
        let mut found = false;
        while j < keys.len()
            invariant
                j <= keys@.len() == kept@.len(),
                kv == views(kept@),
                forall|k: int| 0 <= k < keys@.len() ==> fuzzy_key_of(#[trigger] keys@[k], kept@[k]@),
                fuzzy_key_of(key, x@),
                found <==> exists|k: int| 0 <= k < j && near_duplicate(#[trigger] kv[k], x@),
            decreases keys@.len() - j,
        {
            let nd = near_duplicate_exec(&keys[j], &key);
            proof {
                assert(fuzzy_key_of(keys@[j as int], kept@[j as int]@));
                assert(kv[j as int] == kept@[j as int]@);
                if nd {
                    assert(near_duplicate(kv[j as int], x@));
                }
            }
            found = found || nd;
            j += 1;
        }
        if !found {
            let ghost before = views(kept@);
            kept.push(x);
            keys.push(key);
            proof {
                assert(views(kept@) =~= before.push(x@));
            }
        }
    }
    proof {
        assert(iv.take(iv.len() as int) =~= iv);
    }
    kept
}

/// Removes duplicate invariants in two phases. First by exact key (see
/// `normalize_dedup_key`): of the invariants that share a key, the most
/// confident is kept, then the one with the longest code snippet, then the
/// first. Then by fuzzy title: an invariant of the same entity and kind as
/// one kept before it, whose title overlaps that one's by more than 60% of
/// the words of each, is dropped. The kept invariants keep their order.
pub fn deduplicate(invariants: Vec<Invariant>) -> (res: Vec<Invariant>)
    ensures
        views(res@) == dedup_all(views(invariants@)),
{
    let exact = dedup_exact(invariants);
    dedup_fuzzy(exact)
}

proof fn lemma_fuzzy_step(p: Seq<InvariantV>, x: InvariantV)
    ensures
        ({
            let kept = fuzzy_run(p);
            let r = fuzzy_run(p.push(x));
            &&& (exists|k: int| 0 <= k < kept.len() && near_duplicate(#[trigger] kept[k], x)) ==> r == kept
            &&& !(exists|k: int| 0 <= k < kept.len() && near_duplicate(#[trigger] kept[k], x)) ==> r == kept.push(x)
        }),
{
    let s = p.push(x);
    assert(s.drop_last() =~= p);
    assert(s.last() == x);
}

/// Every invariant the fuzzy phase keeps was given to it.
pub proof fn law_fuzzy_from_input(s: Seq<InvariantV>)
    ensures
        forall|k: int| 0 <= k < fuzzy_run(s).len() ==> s.contains(#[trigger] fuzzy_run(s)[k]),
        fuzzy_run(s).len() <= s.len(),
    decreases s.len(),
{
    if s.len() > 0 {
        let p = s.drop_last();
        let x = s.last();
        law_fuzzy_from_input(p);
        lemma_fuzzy_step(p, x);
        assert(s =~= p.push(x));
        let kept = fuzzy_run(p);
        let r = fuzzy_run(s);
        assert forall|k: int| 0 <= k < r.len() implies s.contains(#[trigger] r[k]) by {
            if k < kept.len() {
                assert(r[k] == kept[k]);
                assert(p.contains(kept[k]));
                let m = choose|m: int| 0 <= m < p.len() && p[m] == kept[k];
                assert(s[m] == p[m]);
            } else {
                assert(r[k] == x);
                assert(s[s.len() - 1] == x);
            }
        }
    }
}

/// No invariant the fuzzy phase keeps is a near duplicate of one kept
/// before it.
pub proof fn law_no_near_duplicates(s: Seq<InvariantV>)
    ensures
        forall|i: int, j: int| 0 <= i < j < fuzzy_run(s).len() ==> !near_duplicate(
            #[trigger] fuzzy_run(s)[i],
            #[trigger] fuzzy_run(s)[j],
        ),
    decreases s.len(),
{
    if s.len() > 0 {
        let p = s.drop_last();
        let x = s.last();
        law_no_near_duplicates(p);
        lemma_fuzzy_step(p, x);
        assert(s =~= p.push(x));
        let kept = fuzzy_run(p);
        let r = fuzzy_run(s);
        assert forall|i: int, j: int| 0 <= i < j < r.len() implies !near_duplicate(#[trigger] r[i], #[trigger] r[j]) by {
            if j < kept.len() {
                assert(r[i] == kept[i] && r[j] == kept[j]);
            } else {
                assert(r[i] == kept[i] && r[j] == x);
            }
        }
    }
}

/// Every invariant given to the fuzzy phase is kept, or is a near duplicate
/// of one that is kept.
pub proof fn law_fuzzy_covers(s: Seq<InvariantV>)
    ensures
        forall|y: InvariantV| s.contains(y) ==> fuzzy_run(s).contains(y) || exists|k: int|
            0 <= k < fuzzy_run(s).len() && near_duplicate(#[trigger] fuzzy_run(s)[k], y),
    decreases s.len(),
{
    if s.len() > 0 {
        let p = s.drop_last();
        let x = s.last();
        law_fuzzy_covers(p);
        lemma_fuzzy_step(p, x);
        assert(s =~= p.push(x));
        let kept = fuzzy_run(p);
        let r = fuzzy_run(s);
        assert forall|y: InvariantV| s.contains(y) implies r.contains(y) || exists|k: int| 0 <= k < r.len() && near_duplicate(#[trigger] r[k], y) by {
            let m = choose|m: int| 0 <= m < s.len() && s[m] == y;
            if m == s.len() - 1 {
                if exists|k: int| 0 <= k < kept.len() && near_duplicate(#[trigger] kept[k], x) {
                    let k = choose|k: int| 0 <= k < kept.len() && near_duplicate(#[trigger] kept[k], x);
                    assert(near_duplicate(r[k], y));
                } else {
                    assert(r[kept.len() as int] == y);
                }
            } else {
                assert(p[m] == y);
                assert(p.contains(y));
                if kept.contains(y) {
                    let k = choose|k: int| 0 <= k < kept.len() && kept[k] == y;
                    assert(r[k] == y);
                } else {
                    let k = choose|k: int| 0 <= k < kept.len() && near_duplicate(#[trigger] kept[k], y);
                    assert(r[k] == kept[k]);
                }
            }
        }
    }
}

/// The fuzzy phase keeps keys distinct where they were.
proof fn lemma_fuzzy_keys_distinct(s: Seq<InvariantV>)
    requires
        keys_distinct(s),
    ensures
        keys_distinct(fuzzy_run(s)),
    decreases s.len(),
{
    if s.len() > 0 {
        let p = s.drop_last();
        let x = s.last();
        assert(keys_distinct(p));
        lemma_fuzzy_keys_distinct(p);
        law_fuzzy_from_input(p);
        lemma_fuzzy_step(p, x);
        assert(s =~= p.push(x));
        let kept = fuzzy_run(p);
        let r = fuzzy_run(s);
        assert forall|a: int, b: int| 0 <= a < b < r.len() implies dedup_key(r[a]) != dedup_key(r[b]) by {
            if b >= kept.len() {
                assert(r[a] == kept[a] && r[b] == x);
                assert(p.contains(kept[a]));
                let m = choose|m: int| 0 <= m < p.len() && p[m] == kept[a];
                assert(s[m] == p[m]);
                assert(s[s.len() - 1] == x);
            } else {
                assert(r[a] == kept[a] && r[b] == kept[b]);
            }
        }
    }
}

/// Without near duplicates among them, the fuzzy phase changes nothing.
proof fn lemma_fuzzy_fixed(s: Seq<InvariantV>)
    requires
        forall|i: int, j: int| 0 <= i < j < s.len() ==> !near_duplicate(#[trigger] s[i], #[trigger] s[j]),
    ensures
        fuzzy_run(s) == s,
    decreases s.len(),
{
    if s.len() > 0 {
        let p = s.drop_last();
        let x = s.last();
        assert forall|i: int, j: int| 0 <= i < j < p.len() implies !near_duplicate(#[trigger] p[i], #[trigger] p[j]) by {
            assert(p[i] == s[i] && p[j] == s[j]);
        }
        lemma_fuzzy_fixed(p);
        lemma_fuzzy_step(p, x);
        assert(s =~= p.push(x));
        assert forall|k: int| 0 <= k < p.len() implies !near_duplicate(#[trigger] p[k], x) by {
            assert(p[k] == s[k]);
            assert(x == s[s.len() - 1]);
        }
    }
}

/// Removing duplicates, both phases, twice is removing them once.
pub proof fn law_dedup_idempotent(s: Seq<InvariantV>)
    ensures
        dedup_all(dedup_all(s)) == dedup_all(s),
{
    let r = dedup_all(s);
    law_dedup_distinct(s);
    lemma_fuzzy_keys_distinct(dedup_run(s));
    lemma_dedup_distinct(r);
    law_no_near_duplicates(dedup_run(s));
    lemma_fuzzy_fixed(r);
}

} // verus!
