//! The crates of a multi-crate workspace: which subdirectories count, in
//! name order.
use vstd::prelude::*;
use vstd::multiset::Multiset;
use crate::dup::views;
use crate::text::{seq_starts_with, starts_with_str, str_eq, to_chars};

verus! {

/// `a` comes before `b` in the order of `str`: code point by code point,
/// a proper prefix first.
pub open spec fn seq_lt(a: Seq<char>, b: Seq<char>) -> bool
    decreases a.len(),
{
    if a.len() == 0 {
        b.len() > 0
    } else if b.len() == 0 {
        false
    } else if (a[0] as int) < (b[0] as int) {
        true
    } else if a[0] == b[0] {
        seq_lt(a.drop_first(), b.drop_first())
    } else {
        false
    }
}

/// `seq_lt` never runs both ways, and two texts neither of which comes
/// before the other are equal.
pub proof fn lemma_seq_lt_total(a: Seq<char>, b: Seq<char>)
    ensures
        seq_lt(a, b) ==> !seq_lt(b, a),
        !seq_lt(a, b) && !seq_lt(b, a) ==> a == b,
    decreases a.len(),
{
    if a.len() > 0 && b.len() > 0 {
        lemma_seq_lt_total(a.drop_first(), b.drop_first());
        if !seq_lt(a, b) && !seq_lt(b, a) {
            assert(a[0] as int == b[0] as int);
            assert(a =~= seq![a[0]] + a.drop_first());
            assert(b =~= seq![b[0]] + b.drop_first());
        }
    } else if a.len() == 0 && b.len() == 0 {
        assert(a =~= b);
    }
}

/// `seq_lt` is transitive.
pub proof fn lemma_seq_lt_transitive(a: Seq<char>, b: Seq<char>, c: Seq<char>)
    requires
        seq_lt(a, b),
        seq_lt(b, c),
    ensures
        seq_lt(a, c),
    decreases a.len(),
{
    if a.len() > 0 && b.len() > 0 && c.len() > 0 && a[0] == b[0] && b[0] == c[0] {
        lemma_seq_lt_transitive(a.drop_first(), b.drop_first(), c.drop_first());
    }
}

/// Whether `a` comes before `b`.
pub fn str_lt(a: &str, b: &str) -> (res: bool)
    ensures
        res == seq_lt(a@, b@),
{
    let x = to_chars(a);
    let y = to_chars(b);
    let mut i: usize = 0;
    assert(a@.skip(0) =~= a@);
    assert(b@.skip(0) =~= b@);
    while i < x.len() && i < y.len() && x[i] == y[i]
        invariant
            i <= x@.len(),
            i <= y@.len(),
            x@ == a@,
            y@ == b@,
            seq_lt(a@, b@) == seq_lt(a@.skip(i as int), b@.skip(i as int)),
        decreases x@.len() - i,
    {
        proof {
            let p = a@.skip(i as int);
            let q = b@.skip(i as int);
            assert(p.drop_first() =~= a@.skip(i + 1));
            assert(q.drop_first() =~= b@.skip(i + 1));
            assert(p[0] == x@[i as int]);
            assert(q[0] == y@[i as int]);
        }
        i += 1;
    }
    proof {
        let p = a@.skip(i as int);
        let q = b@.skip(i as int);
        if i < x@.len() {
            assert(p[0] == x@[i as int]);
        }
        if i < y@.len() {
            assert(q[0] == y@[i as int]);
        }
    }
    if i == x.len() {
        i < y.len()
    } else if i == y.len() {
        false
    } else {
        x[i] < y[i]
    }
}

/// A subdirectory's name and the crate root found in it, if any.
pub struct CrateCandidate {
    pub name: String,
    pub root: Option<String>,
}

/// A subdirectory holds a crate to analyze: it has a crate root and is
/// neither hidden nor `target`.
pub open spec fn is_crate_dir(name: Seq<char>, root: Option<Seq<char>>) -> bool {
    root is Some && !seq_starts_with(name, "."@) && name != "target"@
}

/// `(name, root)` inserted into a list sorted by name, after the entries
/// whose names do not come after it.
pub open spec fn insert_by_name(s: Seq<(Seq<char>, Seq<char>)>, x: (Seq<char>, Seq<char>)) -> Seq<(Seq<char>, Seq<char>)>
    decreases s.len(),
{
    if s.len() == 0 {
        seq![x]
    } else if seq_lt(x.0, s.last().0) {
        insert_by_name(s.drop_last(), x).push(s.last())
    } else {
        s.push(x)
    }
}

/// The crates among the candidates, each inserted in name order.
pub open spec fn crates_of(cs: Seq<(Seq<char>, Option<Seq<char>>)>) -> Seq<(Seq<char>, Seq<char>)>
    decreases cs.len(),
{
    if cs.len() == 0 {
        Seq::empty()
    } else {
        let before = crates_of(cs.drop_last());
        let c = cs.last();
        if is_crate_dir(c.0, c.1) {
            insert_by_name(before, (c.0, c.1->0))
        } else {
            before
        }
    }
}

/// A list of crates in name order: none comes before one listed ahead of
/// it.
pub open spec fn names_sorted(s: Seq<(Seq<char>, Seq<char>)>) -> bool {
    forall|i: int, j: int| 0 <= i < j < s.len() ==> !seq_lt(#[trigger] s[j].0, #[trigger] s[i].0)
}

proof fn lemma_insert_by_name(s: Seq<(Seq<char>, Seq<char>)>, x: (Seq<char>, Seq<char>))
    requires
        names_sorted(s),
    ensures
        names_sorted(insert_by_name(s, x)),
        insert_by_name(s, x).to_multiset() == s.to_multiset().insert(x),
    decreases s.len(),
{
    broadcast use vstd::seq_lib::to_multiset_build, vstd::seq_lib::to_multiset_contains;

    if s.len() == 0 {
        assert(s.to_multiset() =~= Multiset::empty());
        assert(seq![x] =~= Seq::<(Seq<char>, Seq<char>)>::empty().push(x));
    } else {
        let s1 = s.drop_last();
        let last = s.last();
        assert(s =~= s1.push(last));
        if seq_lt(x.0, last.0) {
            lemma_insert_by_name(s1, x);
            let r1 = insert_by_name(s1, x);
            assert forall|i: int| 0 <= i < r1.len() implies !seq_lt(last.0, #[trigger] r1[i].0) by {
                assert(r1.contains(r1[i]));
                assert(r1.to_multiset().count(r1[i]) > 0);
                if r1[i] == x {
                    lemma_seq_lt_total(x.0, last.0);
                } else {
                    assert(s1.to_multiset().count(r1[i]) > 0);
                    assert(s1.contains(r1[i]));
                    let j = choose|j: int| 0 <= j < s1.len() && s1[j] == r1[i];
                    assert(s[j] == s1[j]);
                    assert(s[s.len() - 1] == last);
                }
            }
            assert(s1.to_multiset().insert(x).insert(last) =~= s1.to_multiset().insert(last).insert(x));
        } else {
            assert forall|i: int| 0 <= i < s.len() implies !seq_lt(x.0, #[trigger] s[i].0) by {
                if i < s.len() - 1 {
                    assert(!seq_lt(s[s.len() - 1].0, s[i].0));
                    lemma_seq_lt_total(last.0, x.0);
                    if seq_lt(x.0, s[i].0) && seq_lt(last.0, x.0) {
                        lemma_seq_lt_transitive(last.0, x.0, s[i].0);
                    }
                }
            }
            let r = s.push(x);
            assert forall|i: int, j: int| 0 <= i < j < r.len() implies !seq_lt(#[trigger] r[j].0, #[trigger] r[i].0) by {
                if j == s.len() {
                    assert(r[i] == s[i]);
                } else {
                    assert(r[i] == s[i] && r[j] == s[j]);
                }
            }
        }
    }
}

/// The crates of a workspace come out in name order, whatever order the
/// subdirectories were listed in.
pub proof fn law_workspace_crates_sorted(cs: Seq<(Seq<char>, Option<Seq<char>>)>)
    ensures
        names_sorted(crates_of(cs)),
    decreases cs.len(),
{
    if cs.len() > 0 {
        law_workspace_crates_sorted(cs.drop_last());
        let c = cs.last();
        if is_crate_dir(c.0, c.1) {
            lemma_insert_by_name(crates_of(cs.drop_last()), (c.0, c.1->0));
        }
    }
}

pub open spec fn candidate_views(cs: Seq<CrateCandidate>) -> Seq<(Seq<char>, Option<Seq<char>>)> {
    cs.map_values(|c: CrateCandidate| (c.name@, match c.root { Some(r) => Some(r@), None => None }))
}

pub open spec fn pair_views(v: Seq<(String, String)>) -> Seq<(Seq<char>, Seq<char>)> {
    v.map_values(|p: (String, String)| (p.0@, p.1@))
}

/// Inserts `(name, root)` into a list sorted by name.
fn insert_sorted(v: &mut Vec<(String, String)>, name: String, root: String)
    ensures
        pair_views(final(v)@) == insert_by_name(pair_views(old(v)@), (name@, root@)),
{
    let ghost x = (name@, root@);
    let mut k = v.len();
    let ghost s0 = pair_views(v@);
    assert(s0.take(s0.len() as int) =~= s0);
    assert(s0.skip(s0.len() as int) =~= Seq::<(Seq<char>, Seq<char>)>::empty());
    assert(insert_by_name(s0, x) + Seq::<(Seq<char>, Seq<char>)>::empty() =~= insert_by_name(s0, x));
    while k > 0 && str_lt(name.as_str(), v[k - 1].0.as_str())
        invariant
            k <= v@.len(),
            v@ == old(v)@,
            s0 == pair_views(v@),
            x == (name@, root@),
            insert_by_name(s0, x) == insert_by_name(s0.take(k as int), x) + s0.skip(k as int),
        decreases k,
    {
        proof {
            let t = s0.take(k as int);
            assert(t.last() == (v@[k - 1].0@, v@[k - 1].1@));
            assert(t.drop_last() =~= s0.take(k - 1));
            assert(s0.skip(k - 1) =~= seq![t.last()] + s0.skip(k as int));
            assert(insert_by_name(t, x) == insert_by_name(t.drop_last(), x).push(t.last()));
            assert(insert_by_name(s0.take(k - 1), x).push(t.last()) + s0.skip(k as int) =~= insert_by_name(
                s0.take(k - 1),
                x,
            ) + s0.skip(k - 1));
        }
        k -= 1;
    }
    proof {
        let t = s0.take(k as int);
        if k > 0 {
            assert(t.last() == (v@[k - 1].0@, v@[k - 1].1@));
            assert(insert_by_name(t, x) == t.push(x));
        } else {
            assert(insert_by_name(t, x) == seq![x]);
        }
    }
    v.insert(k, (name, root));
    proof {
        assert(pair_views(v@) =~= s0.take(k as int).push(x) + s0.skip(k as int));
        assert(insert_by_name(s0, x) =~= s0.take(k as int).push(x) + s0.skip(k as int));
    }
}

/// The crates of a workspace directory, from its subdirectories: the ones
/// with a crate root that are neither hidden nor `target`, sorted by name.
pub fn workspace_crates(candidates: Vec<CrateCandidate>) -> (res: Vec<(String, String)>)
    ensures
        pair_views(res@) == crates_of(candidate_views(candidates@)),
{
    let ghost cs = candidate_views(candidates@);
    let mut out: Vec<(String, String)> = Vec::new();
    let mut i: usize = 0;
    assert(cs.take(0) =~= Seq::<(Seq<char>, Option<Seq<char>>)>::empty());
    assert(pair_views(out@) =~= Seq::<(Seq<char>, Seq<char>)>::empty());
    for c in it: candidates
        invariant
            cs == candidate_views(it.seq()),
            pair_views(out@) == crates_of(cs.take(it.index() as int)),
    {
        let ghost k = it.index();
        proof {
            assert(cs.take(k + 1).drop_last() =~= cs.take(k as int));
            assert(cs.take(k + 1).last() == (c.name@, match c.root { Some(r) => Some(r@), None => None::<Seq<char>> }));
        }
        let keep = !starts_with_str(to_chars(c.name.as_str()).as_slice(), ".") && !str_eq(c.name.as_str(), "target");
        match c.root {
            Some(r) => {
                if keep {
                    insert_sorted(&mut out, c.name, r);
                }
            },
            None => {},
        }
    }
    assert(cs.take(cs.len() as int) =~= cs);
    out
}

} // verus!
