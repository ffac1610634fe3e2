//! Finding the programs to translate: where a program's source is, and the
//! order the programs are worked through.
use vstd::prelude::*;
use crate::parser::workspace::{lemma_seq_lt_total, lemma_seq_lt_transitive, seq_lt, str_lt};
use vstd::multiset::Multiset;
use crate::text::{from_chars, push_str, replace, seq_replace, str_eq, to_chars};
use crate::translation::types::ProgramInfo;

verus! {

/// What the files of a program directory show about its source.
pub struct SourceProbe {
    /// `translated_rust/src/lib.rs` exists
    pub translated_src_lib: bool,
    /// `translated_rust/lib.rs` exists
    pub translated_lib: bool,
    /// `dst/<name>/src/lib.rs` exists
    pub nested_src_lib: bool,
    /// `dst/<name>/lib.rs` exists
    pub nested_lib: bool,
    /// `dst/` exists
    pub dst_exists: bool,
    /// The first subdirectory of `dst/` that holds a `lib.rs`, if any
    pub dst_first_with_lib: Option<String>,
}

/// Where a program's source is.
#[derive(Debug, Clone)]
pub enum ProgramSource {
    /// `translated_rust/`
    TranslatedRust,
    /// `dst/<name>/`
    DstNested,
    /// The named subdirectory of `dst/`
    DstSubdir(String),
}

/// The source a program directory offers: `translated_rust/` when it holds
/// a crate root, else `dst/<name>/` when that does, else the first
/// subdirectory of `dst/` with a `lib.rs`; none when nothing qualifies.
pub open spec fn source_choice(p: SourceProbe) -> Option<ProgramSource> {
    if p.translated_src_lib || p.translated_lib {
        Some(ProgramSource::TranslatedRust)
    } else if p.nested_src_lib || p.nested_lib {
        Some(ProgramSource::DstNested)
    } else if p.dst_exists {
        match p.dst_first_with_lib {
            Some(d) => Some(ProgramSource::DstSubdir(d)),
            None => None,
        }
    } else {
        None
    }
}

/// Picks the source of a program directory; `None` means the directory
/// is passed over.
pub fn program_source(p: SourceProbe) -> (res: Option<ProgramSource>)
    ensures
        res == source_choice(p),
{
    if p.translated_src_lib || p.translated_lib {
        Some(ProgramSource::TranslatedRust)
    } else if p.nested_src_lib || p.nested_lib {
        Some(ProgramSource::DstNested)
    } else if p.dst_exists {
        match p.dst_first_with_lib {
            Some(d) => Some(ProgramSource::DstSubdir(d)),
            None => None,
        }
    } else {
        None
    }
}

/// The name of a translation run's directory: the model's name with `/`
/// and spaces made `_`, then `_` and the start time.
pub open spec fn translation_run_name(model: Seq<char>, stamp: Seq<char>) -> Seq<char> {
    seq_replace(seq_replace(model, "/"@, "_"@), " "@, "_"@) + "_"@ + stamp
}

/// The name of a translation run's directory.
pub fn run_name(model: &str, stamp: &str) -> (res: String)
    ensures
        res@ == translation_run_name(model@, stamp@),
{
    proof {
        reveal_strlit("/");
        reveal_strlit(" ");
        reveal_strlit("_");
    }
    let a = replace(to_chars(model).as_slice(), to_chars("/").as_slice(), to_chars("_").as_slice());
    let b = replace(a.as_slice(), to_chars(" ").as_slice(), to_chars("_").as_slice());
    let mut out = from_chars(b.as_slice());
    push_str(&mut out, "_");
    push_str(&mut out, stamp);
    out
}

/// Program `a` comes before program `b`: by collection, then by name.
pub open spec fn program_lt(a: ProgramInfo, b: ProgramInfo) -> bool {
    seq_lt(a.collection@, b.collection@) || (a.collection@ == b.collection@ && seq_lt(
        a.name@,
        b.name@,
    ))
}

/// `x` inserted into a list of programs, after those that do not come
/// after it.
pub open spec fn insert_program(s: Seq<ProgramInfo>, x: ProgramInfo) -> Seq<ProgramInfo>
    decreases s.len(),
{
    if s.len() == 0 {
        seq![x]
    } else if program_lt(x, s.last()) {
        insert_program(s.drop_last(), x).push(s.last())
    } else {
        s.push(x)
    }
}

/// The programs in order of collection, then name; programs that tie keep
/// the order they were found in.
pub open spec fn programs_in_order(s: Seq<ProgramInfo>) -> Seq<ProgramInfo>
    decreases s.len(),
{
    if s.len() == 0 {
        Seq::empty()
    } else {
        insert_program(programs_in_order(s.drop_last()), s.last())
    }
}

/// A list of programs in order: none comes before one listed ahead of it.
pub open spec fn programs_sorted(s: Seq<ProgramInfo>) -> bool {
    forall|i: int, j: int| 0 <= i < j < s.len() ==> !program_lt(#[trigger] s[j], #[trigger] s[i])
}

proof fn lemma_program_lt(a: ProgramInfo, b: ProgramInfo, c: ProgramInfo)
    ensures
        program_lt(a, b) ==> !program_lt(b, a),
        program_lt(a, c) && !program_lt(a, b) ==> program_lt(b, c),
{
    lemma_seq_lt_total(a.collection@, b.collection@);
    lemma_seq_lt_total(a.name@, b.name@);
    lemma_seq_lt_total(b.collection@, c.collection@);
    lemma_seq_lt_total(b.name@, c.name@);
    if program_lt(a, c) && !program_lt(a, b) {
        if seq_lt(b.collection@, a.collection@) && seq_lt(a.collection@, c.collection@) {
            lemma_seq_lt_transitive(b.collection@, a.collection@, c.collection@);
        }
        if seq_lt(b.name@, a.name@) && seq_lt(a.name@, c.name@) {
            lemma_seq_lt_transitive(b.name@, a.name@, c.name@);
        }
    }
}

proof fn lemma_insert_program(s: Seq<ProgramInfo>, x: ProgramInfo)
    requires
        programs_sorted(s),
    ensures
        programs_sorted(insert_program(s, x)),
        insert_program(s, x).to_multiset() == s.to_multiset().insert(x),
    decreases s.len(),
{
    broadcast use vstd::seq_lib::to_multiset_build, vstd::seq_lib::to_multiset_contains;

    if s.len() == 0 {
        assert(s.to_multiset() =~= Multiset::empty());
        assert(seq![x] =~= Seq::<ProgramInfo>::empty().push(x));
    } else {
        let s1 = s.drop_last();
        let last = s.last();
        assert(s =~= s1.push(last));
        if program_lt(x, last) {
            lemma_insert_program(s1, x);
            let r1 = insert_program(s1, x);
            assert forall|i: int| 0 <= i < r1.len() implies !program_lt(last, #[trigger] r1[i]) by {
                assert(r1.contains(r1[i]));
                assert(r1.to_multiset().count(r1[i]) > 0);
                if r1[i] == x {
                    lemma_program_lt(x, last, x);
                } else {
                    assert(s1.to_multiset().count(r1[i]) > 0);
                    assert(s1.contains(r1[i]));
                    let j = choose|j: int| 0 <= j < s1.len() && s1[j] == r1[i];
                    assert(s[j] == s1[j]);
                    assert(s[s.len() - 1] == last);
                }
            }
            assert(s1.to_multiset().insert(x).insert(last) =~= s1.to_multiset().insert(last).insert(x));
        } else {
            assert forall|i: int| 0 <= i < s.len() implies !program_lt(x, #[trigger] s[i]) by {
                if i < s.len() - 1 {
                    assert(!program_lt(s[s.len() - 1], s[i]));
                    lemma_program_lt(x, last, s[i]);
                }
            }
            let r = s.push(x);
            assert forall|i: int, j: int| 0 <= i < j < r.len() implies !program_lt(#[trigger] r[j], #[trigger] r[i]) by {
                if j == s.len() {
                    assert(r[i] == s[i]);
                } else {
                    assert(r[i] == s[i] && r[j] == s[j]);
                }
            }
        }
    }
}

/// Sorting programs puts them in order of collection, then name, and
/// keeps every program found, each as often as it was found.
pub proof fn law_programs_sorted(s: Seq<ProgramInfo>)
    ensures
        programs_sorted(programs_in_order(s)),
        programs_in_order(s).to_multiset() == s.to_multiset(),
    decreases s.len(),
{
    broadcast use vstd::seq_lib::to_multiset_build;

    if s.len() == 0 {
        assert(programs_in_order(s) =~= s);
    } else {
        law_programs_sorted(s.drop_last());
        lemma_insert_program(programs_in_order(s.drop_last()), s.last());
        assert(s =~= s.drop_last().push(s.last()));
    }
}

fn program_before(a: &ProgramInfo, b: &ProgramInfo) -> (res: bool)
    ensures
        res == program_lt(*a, *b),
{
    str_lt(a.collection.as_str(), b.collection.as_str()) || (str_eq(
        a.collection.as_str(),
        b.collection.as_str(),
    ) && str_lt(a.name.as_str(), b.name.as_str()))
}

fn insert_in_order(v: &mut Vec<ProgramInfo>, x: ProgramInfo)
    ensures
        final(v)@ == insert_program(old(v)@, x),
{
    let ghost s0 = v@;
    let mut k = v.len();
    assert(s0.take(s0.len() as int) =~= s0);
    assert(s0.skip(s0.len() as int) =~= Seq::<ProgramInfo>::empty());
    assert(insert_program(s0, x) + Seq::<ProgramInfo>::empty() =~= insert_program(s0, x));
    while k > 0 && program_before(&x, &v[k - 1])
        invariant
            k <= v@.len(),
            v@ == s0,
            insert_program(s0, x) == insert_program(s0.take(k as int), x) + s0.skip(k as int),
        decreases k,
    {
        proof {
            let t = s0.take(k as int);
            assert(t.last() == v@[k - 1]);
            assert(t.drop_last() =~= s0.take(k - 1));
            assert(s0.skip(k - 1) =~= seq![t.last()] + s0.skip(k as int));
            assert(insert_program(s0.take(k - 1), x).push(t.last()) + s0.skip(k as int)
                =~= insert_program(s0.take(k - 1), x) + s0.skip(k - 1));
        }
        k -= 1;
    }
    proof {
        let t = s0.take(k as int);
        if k > 0 {
            assert(t.last() == v@[k - 1]);
            assert(insert_program(t, x) == t.push(x));
        } else {
            assert(insert_program(t, x) == seq![x]);
        }
    }
    v.insert(k, x);
    proof {
        assert(v@ =~= s0.take(k as int).push(x) + s0.skip(k as int));
    }
}

/// The programs sorted by collection, then name, for a steady order of
/// work; ties keep the order they were found in.
pub fn sort_programs(programs: Vec<ProgramInfo>) -> (res: Vec<ProgramInfo>)
    ensures
        res@ == programs_in_order(programs@),
{
    let ghost ps = programs@;
    let mut out: Vec<ProgramInfo> = Vec::new();
    assert(ps.take(0) =~= Seq::<ProgramInfo>::empty());
    for p in it: programs
        invariant
            ps == it.seq(),
            out@ == programs_in_order(ps.take(it.index() as int)),
    {
        let ghost k = it.index();
        proof {
            assert(ps.take(k + 1).drop_last() =~= ps.take(k as int));
            assert(ps.take(k + 1).last() == p);
        }
        insert_in_order(&mut out, p);
    }
    assert(ps.take(ps.len() as int) =~= ps);
    out
}

} // verus!
