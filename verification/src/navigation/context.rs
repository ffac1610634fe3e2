//! Building the analysis chunks of a module: the whole module when its
//! estimated size fits the token limit, else one chunk per cluster of items
//! around each struct and enum, with the relevant source lines and a summary
//! of the sibling chunks.
use vstd::prelude::*;
use crate::dup::{Dup, views, opt_view, dup_vec};
use crate::navigation::chunk::{
    AnalysisChunk, AnalysisChunkV, ItemCluster, ItemClusterV, estimated_tokens_of, summary_of,
    type_names_of,
};
use crate::parser::ast::{
    CodeItem, CodeItemV, EnumDef, EnumDefV, FunctionDef, FunctionDefV, ImplBlock, ImplBlockV,
    StructDef, StructDefV, TraitDef, TraitDefV,
};
use crate::parser::module_graph::{Module, ModuleV};
use crate::text::{
    byte_len, decimal, prefix_within, seq_contains, seq_join, seq_lines, byte_len_at_most,
    contains, from_chars, join, lines_of, prefix_within_bytes, push_char, push_str, to_chars,
    usize_to_string,
};

verus! {

// ---------------------------------------------------------------------------
// Clustering by type affinity
// ---------------------------------------------------------------------------

/// The impl blocks not used yet whose type mentions `name`, in order.
pub open spec fn claimed_impls(name: Seq<char>, impls: Seq<ImplBlockV>, used: Seq<bool>) -> Seq<ImplBlockV>
    decreases impls.len(),
{
    if impls.len() == 0 {
        Seq::empty()
    } else {
        let i = impls.len() - 1;
        let rest = claimed_impls(name, impls.drop_last(), used);
        if !used[i] && seq_contains(impls[i].self_type, name) {
            rest.push(impls[i])
        } else {
            rest
        }
    }
}

/// The free functions not used yet whose signature mentions `name`, in order.
pub open spec fn claimed_fns(name: Seq<char>, fns: Seq<FunctionDefV>, used: Seq<bool>) -> Seq<FunctionDefV>
    decreases fns.len(),
{
    if fns.len() == 0 {
        Seq::empty()
    } else {
        let i = fns.len() - 1;
        let rest = claimed_fns(name, fns.drop_last(), used);
        if !used[i] && seq_contains(fns[i].signature, name) {
            rest.push(fns[i])
        } else {
            rest
        }
    }
}

/// The flags after the impl blocks that mention `name` are claimed.
pub open spec fn mark_impls(name: Seq<char>, impls: Seq<ImplBlockV>, used: Seq<bool>) -> Seq<bool> {
    Seq::new(used.len(), |i: int| used[i] || seq_contains(impls[i].self_type, name))
}

pub open spec fn mark_fns(name: Seq<char>, fns: Seq<FunctionDefV>, used: Seq<bool>) -> Seq<bool> {
    Seq::new(used.len(), |i: int| used[i] || seq_contains(fns[i].signature, name))
}

/// The clusters made so far and which impl blocks and functions they took.
pub struct ClusterState {
    pub clusters: Seq<ItemClusterV>,
    pub used_impl: Seq<bool>,
    pub used_fn: Seq<bool>,
}

pub open spec fn anchored(
    st: ClusterState,
    name: Seq<char>,
    structs: Seq<StructDefV>,
    enums: Seq<EnumDefV>,
    impls: Seq<ImplBlockV>,
    fns: Seq<FunctionDefV>,
) -> ClusterState {
    let c = ItemClusterV {
        anchor_type: Some(name),
        structs,
        enums,
        functions: claimed_fns(name, fns, st.used_fn),
        traits: Seq::empty(),
        impl_blocks: claimed_impls(name, impls, st.used_impl),
    };
    ClusterState {
        clusters: st.clusters.push(c),
        used_impl: mark_impls(name, impls, st.used_impl),
        used_fn: mark_fns(name, fns, st.used_fn),
    }
}

/// One cluster per struct, in order, each taking the unclaimed impl blocks
/// and functions that mention the struct.
pub open spec fn over_structs(structs: Seq<StructDefV>, impls: Seq<ImplBlockV>, fns: Seq<FunctionDefV>) -> ClusterState
    decreases structs.len(),
{
    if structs.len() == 0 {
        ClusterState {
            clusters: Seq::empty(),
            used_impl: Seq::new(impls.len(), |i: int| false),
            used_fn: Seq::new(fns.len(), |i: int| false),
        }
    } else {
        let s = structs.last();
        anchored(over_structs(structs.drop_last(), impls, fns), s.name, seq![s], Seq::empty(), impls, fns)
    }
}

/// Then one cluster per enum, in the same way.
pub open spec fn over_enums(st: ClusterState, enums: Seq<EnumDefV>, impls: Seq<ImplBlockV>, fns: Seq<FunctionDefV>) -> ClusterState
    decreases enums.len(),
{
    if enums.len() == 0 {
        st
    } else {
        let e = enums.last();
        anchored(over_enums(st, enums.drop_last(), impls, fns), e.name, Seq::empty(), seq![e], impls, fns)
    }
}

pub open spec fn unused_impls(impls: Seq<ImplBlockV>, used: Seq<bool>) -> Seq<ImplBlockV>
    decreases impls.len(),
{
    if impls.len() == 0 {
        Seq::empty()
    } else {
        let rest = unused_impls(impls.drop_last(), used);
        if !used[impls.len() - 1] {
            rest.push(impls.last())
        } else {
            rest
        }
    }
}

pub open spec fn unused_fns(fns: Seq<FunctionDefV>, used: Seq<bool>) -> Seq<FunctionDefV>
    decreases fns.len(),
{
    if fns.len() == 0 {
        Seq::empty()
    } else {
        let rest = unused_fns(fns.drop_last(), used);
        if !used[fns.len() - 1] {
            rest.push(fns.last())
        } else {
            rest
        }
    }
}

/// Some impl block has a method.
pub open spec fn any_methods(impls: Seq<ImplBlockV>) -> bool {
    exists|i: int| 0 <= i < impls.len() && impls[i].methods.len() > 0
}

/// The cluster holds something worth analyzing.
pub open spec fn cluster_nonempty(c: ItemClusterV) -> bool {
    c.structs.len() > 0 || c.enums.len() > 0 || c.functions.len() > 0 || c.traits.len() > 0
        || any_methods(c.impl_blocks)
}

pub open spec fn nonempty_pred() -> spec_fn(ItemClusterV) -> bool {
    |c: ItemClusterV| cluster_nonempty(c)
}

/// The clusters of a module's items: one per struct, then one per enum, then
/// a loose cluster of the remaining functions and impl blocks and all
/// traits, if there are any; empty clusters are dropped.
pub open spec fn clusters_of(
    structs: Seq<StructDefV>,
    enums: Seq<EnumDefV>,
    fns: Seq<FunctionDefV>,
    traits: Seq<TraitDefV>,
    impls: Seq<ImplBlockV>,
) -> Seq<ItemClusterV> {
    let st = over_enums(over_structs(structs, impls, fns), enums, impls, fns);
    let ri = unused_impls(impls, st.used_impl);
    let rf = unused_fns(fns, st.used_fn);
    let all = if ri.len() > 0 || rf.len() > 0 || traits.len() > 0 {
        st.clusters.push(
            ItemClusterV {
                anchor_type: None,
                structs: Seq::empty(),
                enums: Seq::empty(),
                functions: rf,
                traits,
                impl_blocks: ri,
            },
        )
    } else {
        st.clusters
    };
    all.filter(nonempty_pred())
}

/// Claims the unclaimed impl blocks and functions that mention `name`.
fn claim(
    name: &str,
    impls: &Vec<ImplBlock>,
    fns: &Vec<FunctionDef>,
    used_impl: &mut Vec<bool>,
    used_fn: &mut Vec<bool>,
) -> (res: (Vec<ImplBlock>, Vec<FunctionDef>))
    requires
        old(used_impl)@.len() == impls@.len(),
        old(used_fn)@.len() == fns@.len(),
    ensures
        views(res.0@) == claimed_impls(name@, views(impls@), old(used_impl)@),
        views(res.1@) == claimed_fns(name@, views(fns@), old(used_fn)@),
        final(used_impl)@ == mark_impls(name@, views(impls@), old(used_impl)@),
        final(used_fn)@ == mark_fns(name@, views(fns@), old(used_fn)@),
{
    let n = to_chars(name);
    let ghost ui = old(used_impl)@;
    let ghost uf = old(used_fn)@;
    let ghost iv = views(impls@);
    let ghost fv = views(fns@);
    let mut taken_i: Vec<ImplBlock> = Vec::new();
    let mut k: usize = 0;
    while k < impls.len()
        invariant
            k <= impls@.len(),
            iv == views(impls@),
            n@ == name@,
            used_impl@.len() == ui.len() == impls@.len(),
            views(taken_i@) == claimed_impls(name@, iv.take(k as int), ui),
            forall|j: int| 0 <= j < k ==> #[trigger] used_impl@[j] == (ui[j] || seq_contains(iv[j].self_type, name@)),
            forall|j: int| k <= j < ui.len() ==> #[trigger] used_impl@[j] == ui[j],
        decreases impls@.len() - k,
    {
        proof {
            assert(iv.take(k + 1).drop_last() =~= iv.take(k as int));
            assert(iv.take(k + 1)[k as int] == impls@[k as int]@);
        }
        let hit = contains(to_chars(impls[k].self_type.as_str()).as_slice(), n.as_slice());
        assert(iv[k as int] == impls@[k as int]@);
        assert(hit == seq_contains(iv[k as int].self_type, name@));
        if hit && !used_impl[k] {
            let ghost before = views(taken_i@);
            taken_i.push(impls[k].dup());
            proof {
                assert(views(taken_i@) =~= before.push(iv[k as int]));
            }
        }
        let ghost prev = used_impl@;
        if hit {
            used_impl.set(k, true);
        }
        proof {
            assert forall|j: int| 0 <= j < k + 1 implies #[trigger] used_impl@[j] == (ui[j] || seq_contains(iv[j].self_type, name@)) by {
                if j < k {
                    assert(used_impl@[j] == prev[j]);
                }
            }
        }
        k += 1;
    }
    proof {
        assert(iv.take(iv.len() as int) =~= iv);
        assert(used_impl@ =~= mark_impls(name@, iv, ui));
    }
    let mut taken_f: Vec<FunctionDef> = Vec::new();
    let mut k: usize = 0;
    while k < fns.len()
        invariant
            k <= fns@.len(),
            fv == views(fns@),
            n@ == name@,
            used_fn@.len() == uf.len() == fns@.len(),
            views(taken_f@) == claimed_fns(name@, fv.take(k as int), uf),
            forall|j: int| 0 <= j < k ==> #[trigger] used_fn@[j] == (uf[j] || seq_contains(fv[j].signature, name@)),
            forall|j: int| k <= j < uf.len() ==> #[trigger] used_fn@[j] == uf[j],
        decreases fns@.len() - k,
    {
        proof {
            assert(fv.take(k + 1).drop_last() =~= fv.take(k as int));
            assert(fv.take(k + 1)[k as int] == fns@[k as int]@);
        }
        let hit = contains(to_chars(fns[k].signature.as_str()).as_slice(), n.as_slice());
        assert(fv[k as int] == fns@[k as int]@);
        assert(hit == seq_contains(fv[k as int].signature, name@));
        if hit && !used_fn[k] {
            let ghost before = views(taken_f@);
            taken_f.push(fns[k].dup());
            proof {
                assert(views(taken_f@) =~= before.push(fv[k as int]));
            }
        }
        let ghost prev = used_fn@;
        if hit {
            used_fn.set(k, true);
        }
        proof {
            assert forall|j: int| 0 <= j < k + 1 implies #[trigger] used_fn@[j] == (uf[j] || seq_contains(fv[j].signature, name@)) by {
                if j < k {
                    assert(used_fn@[j] == prev[j]);
                }
            }
        }
        k += 1;
    }
    proof {
        assert(fv.take(fv.len() as int) =~= fv);
        assert(used_fn@ =~= mark_fns(name@, fv, uf));
    }
    (taken_i, taken_f)
}

fn cluster_nonempty_exec(c: &ItemCluster) -> (res: bool)
    ensures
        res == cluster_nonempty(c@),
{
    if c.structs.len() > 0 || c.enums.len() > 0 || c.functions.len() > 0 || c.traits.len() > 0 {
        return true;
    }
    let mut i: usize = 0;
    while i < c.impl_blocks.len()
        invariant
            i <= c.impl_blocks@.len(),
            forall|j: int| 0 <= j < i ==> c.impl_blocks@[j].methods@.len() == 0,
        decreases c.impl_blocks@.len() - i,
    {
        if c.impl_blocks[i].methods.len() > 0 {
            assert(c@.impl_blocks[i as int].methods.len() > 0);
            return true;
        }
        i += 1;
    }
    proof {
        if any_methods(c@.impl_blocks) {
            let j = choose|j: int| 0 <= j < c@.impl_blocks.len() && c@.impl_blocks[j].methods.len() > 0;
            assert(c.impl_blocks@[j].methods@.len() == 0);
        }
    }
    false
}

/// Clusters items by type affinity: each struct and each enum anchors a
/// cluster that takes the impl blocks and free functions mentioning it (the
/// first anchor to mention one takes it); the rest, with the traits, form a
/// loose cluster; empty clusters are dropped.
pub fn cluster_by_type_affinity(
    structs: Vec<StructDef>,
    enums: Vec<EnumDef>,
    functions: Vec<FunctionDef>,
    traits: Vec<TraitDef>,
    impl_blocks: Vec<ImplBlock>,
) -> (res: Vec<ItemCluster>)
    ensures
        views(res@) == clusters_of(views(structs@), views(enums@), views(functions@), views(traits@), views(impl_blocks@)),
{
    let ghost sv = views(structs@);
    let ghost ev = views(enums@);
    let ghost fv = views(functions@);
    let ghost iv = views(impl_blocks@);
    let mut clusters: Vec<ItemCluster> = Vec::new();
    let mut used_impl: Vec<bool> = Vec::new();
    let mut used_fn: Vec<bool> = Vec::new();
    let mut k: usize = 0;
    while k < impl_blocks.len()
        invariant
            k <= impl_blocks@.len(),
            used_impl@.len() == k,
            forall|j: int| 0 <= j < k ==> !used_impl@[j],
        decreases impl_blocks@.len() - k,
    {
        used_impl.push(false);
        k += 1;
    }
    let mut k: usize = 0;
    while k < functions.len()
        invariant
            k <= functions@.len(),
            used_fn@.len() == k,
            forall|j: int| 0 <= j < k ==> !used_fn@[j],
        decreases functions@.len() - k,
    {
        used_fn.push(false);
        k += 1;
    }
    proof {
        assert(used_impl@ =~= Seq::new(iv.len(), |i: int| false));
        assert(used_fn@ =~= Seq::new(fv.len(), |i: int| false));
    }
    let mut i: usize = 0;
    while i < structs.len()
        invariant
            i <= structs@.len(),
            sv == views(structs@),
            fv == views(functions@),
            iv == views(impl_blocks@),
            ({
                let st = over_structs(sv.take(i as int), iv, fv);
                &&& views(clusters@) == st.clusters
                &&& used_impl@ == st.used_impl
                &&& used_fn@ == st.used_fn
            }),
            used_impl@.len() == impl_blocks@.len(),
            used_fn@.len() == functions@.len(),
        decreases structs@.len() - i,
    {
        proof {
            assert(sv.take(i + 1).drop_last() =~= sv.take(i as int));
            assert(sv.take(i + 1).last() == structs@[i as int]@);
        }
        let s = &structs[i];
        let (ci, cf) = claim(s.name.as_str(), &impl_blocks, &functions, &mut used_impl, &mut used_fn);
        let c = ItemCluster {
            anchor_type: Some(s.name.clone()),
            structs: vec![s.dup()],
            enums: Vec::new(),
            functions: cf,
            traits: Vec::new(),
            impl_blocks: ci,
        };
        let ghost before = views(clusters@);
        clusters.push(c);
        proof {
            assert(views(c.structs@) =~= seq![s@]);
            assert(views(c.enums@) =~= Seq::<EnumDefV>::empty());
            assert(views(c.traits@) =~= Seq::<TraitDefV>::empty());
            assert(views(clusters@) =~= before.push(c@));
        }
        i += 1;
    }
    proof {
        assert(sv.take(sv.len() as int) =~= sv);
    }
    let ghost st0 = over_structs(sv, iv, fv);
    let mut i: usize = 0;
    while i < enums.len()
        invariant
            i <= enums@.len(),
            ev == views(enums@),
            fv == views(functions@),
            iv == views(impl_blocks@),
            ({
                let st = over_enums(st0, ev.take(i as int), iv, fv);
                &&& views(clusters@) == st.clusters
                &&& used_impl@ == st.used_impl
                &&& used_fn@ == st.used_fn
            }),
            used_impl@.len() == impl_blocks@.len(),
            used_fn@.len() == functions@.len(),
        decreases enums@.len() - i,
    {
        proof {
            assert(ev.take(i + 1).drop_last() =~= ev.take(i as int));
            assert(ev.take(i + 1).last() == enums@[i as int]@);
        }
        let e = &enums[i];
        let (ci, cf) = claim(e.name.as_str(), &impl_blocks, &functions, &mut used_impl, &mut used_fn);
        let c = ItemCluster {
            anchor_type: Some(e.name.clone()),
            structs: Vec::new(),
            enums: vec![e.dup()],
            functions: cf,
            traits: Vec::new(),
            impl_blocks: ci,
        };
        let ghost before = views(clusters@);
        clusters.push(c);
        proof {
            assert(views(c.enums@) =~= seq![e@]);
            assert(views(c.structs@) =~= Seq::<StructDefV>::empty());
            assert(views(c.traits@) =~= Seq::<TraitDefV>::empty());
            assert(views(clusters@) =~= before.push(c@));
        }
        i += 1;
    }
    proof {
        assert(ev.take(ev.len() as int) =~= ev);
    }
    let ghost st = over_enums(st0, ev, iv, fv);
    let mut ri: Vec<ImplBlock> = Vec::new();
    let mut k: usize = 0;
    while k < impl_blocks.len()
        invariant
            k <= impl_blocks@.len(),
            iv == views(impl_blocks@),
            used_impl@ == st.used_impl,
            used_impl@.len() == impl_blocks@.len(),
            views(ri@) == unused_impls(iv.take(k as int), st.used_impl),
        decreases impl_blocks@.len() - k,
    {
        proof {
            assert(iv.take(k + 1).drop_last() =~= iv.take(k as int));
            assert(iv.take(k + 1).last() == impl_blocks@[k as int]@);
        }
        if !used_impl[k] {
            let ghost before = views(ri@);
            ri.push(impl_blocks[k].dup());
            proof {
                assert(views(ri@) =~= before.push(iv[k as int]));
            }
        }
        k += 1;
    }
    let mut rf: Vec<FunctionDef> = Vec::new();
    let mut k: usize = 0;
    while k < functions.len()
        invariant
            k <= functions@.len(),
            fv == views(functions@),
            used_fn@ == st.used_fn,
            used_fn@.len() == functions@.len(),
            views(rf@) == unused_fns(fv.take(k as int), st.used_fn),
        decreases functions@.len() - k,
    {
        proof {
            assert(fv.take(k + 1).drop_last() =~= fv.take(k as int));
            assert(fv.take(k + 1).last() == functions@[k as int]@);
        }
        if !used_fn[k] {
            let ghost before = views(rf@);
            rf.push(functions[k].dup());
            proof {
                assert(views(rf@) =~= before.push(fv[k as int]));
            }
        }
        k += 1;
    }
    proof {
        assert(iv.take(iv.len() as int) =~= iv);
        assert(fv.take(fv.len() as int) =~= fv);
    }
    if ri.len() > 0 || rf.len() > 0 || traits.len() > 0 {
        let c = ItemCluster {
            anchor_type: None,
            structs: Vec::new(),
            enums: Vec::new(),
            functions: rf,
            traits,
            impl_blocks: ri,
        };
        let ghost before = views(clusters@);
        clusters.push(c);
        proof {
            assert(views(c.structs@) =~= Seq::<StructDefV>::empty());
            assert(views(c.enums@) =~= Seq::<EnumDefV>::empty());
            assert(views(clusters@) =~= before.push(c@));
        }
    }
    let ghost all = views(clusters@);
    let mut kept: Vec<ItemCluster> = Vec::new();
    let mut clusters = clusters;
    let mut k: usize = 0;
    let n = clusters.len();
    while k < n
        invariant
            k <= n,
            n == all.len(),
            clusters@.len() == n - k,
            forall|j: int| 0 <= j < n - k ==> (#[trigger] clusters@[j])@ == all[k + j],
            views(kept@) == all.take(k as int).filter(nonempty_pred()),
        decreases n - k,
    {
        proof {
            reveal(Seq::filter);
            assert(all.take(k + 1).drop_last() =~= all.take(k as int));
        }
        let ghost rest_before = clusters@;
        let c = pop_front(&mut clusters);
        proof {
            assert(rest_before[0]@ == all[k as int]);
            assert(all.take(k + 1).last() == c@);
            assert forall|j: int| 0 <= j < n - (k + 1) implies (#[trigger] clusters@[j])@ == all[k + 1 + j] by {
                assert(clusters@[j] == rest_before[j + 1]);
            }
        }
        if cluster_nonempty_exec(&c) {
            let ghost before = views(kept@);
            kept.push(c);
            proof {
                assert(views(kept@) =~= before.push(all[k as int]));
            }
        }
        k += 1;
    }
    proof {
        assert(all.take(n as int) =~= all);
    }
    kept
}

/// Removes and returns the first element.
fn pop_front(v: &mut Vec<ItemCluster>) -> (res: ItemCluster)
    requires
        old(v)@.len() > 0,
    ensures
        res == old(v)@[0],
        final(v)@ == old(v)@.remove(0),
{
    v.remove(0)
}

// ---------------------------------------------------------------------------
// Relevant source lines
// ---------------------------------------------------------------------------

/// The line mentions one of the names.
pub open spec fn line_mentions(line: Seq<char>, names: Seq<Seq<char>>) -> bool {
    exists|k: int| 0 <= k < names.len() && seq_contains(line, names[k])
}

/// Line `i` is within five lines of a line that mentions one of the names.
pub open spec fn near_mention(lines: Seq<Seq<char>>, names: Seq<Seq<char>>, i: int) -> bool {
    exists|j: int| 0 <= j < lines.len() && j - 5 <= i <= j + 5 && line_mentions(lines[j], names)
}

pub struct RelState {
    pub out: Seq<char>,
    pub in_section: bool,
}

/// The text made of the first `n` lines: each line near a mention, followed
/// by a newline, with a marker between two runs of such lines.
pub open spec fn rel_scan(lines: Seq<Seq<char>>, names: Seq<Seq<char>>, n: int) -> RelState
    decreases n,
{
    if n <= 0 {
        RelState { out: Seq::empty(), in_section: false }
    } else {
        let st = rel_scan(lines, names, n - 1);
        let i = n - 1;
        if near_mention(lines, names, i) {
            let pre = if !st.in_section && st.out.len() > 0 {
                st.out + "\n// ... (other code) ...\n\n"@
            } else {
                st.out
            };
            RelState { out: pre + lines[i] + "\n"@, in_section: true }
        } else {
            RelState { out: st.out, in_section: false }
        }
    }
}

/// The source relevant to a cluster with the given type names: the whole
/// source when there are none, else the lines within five lines of a line
/// that mentions one of them.
pub open spec fn relevant_source(raw: Seq<char>, names: Seq<Seq<char>>) -> Seq<char> {
    if names.len() == 0 {
        raw
    } else {
        let ls = seq_lines(raw);
        rel_scan(ls, names, ls.len() as int).out
    }
}

fn line_mentions_exec(line: &str, names: &Vec<String>) -> (res: bool)
    ensures
        res == line_mentions(line@, views(names@)),
{
    let cs = to_chars(line);
    let mut k: usize = 0;
    while k < names.len()
        invariant
            k <= names@.len(),
            cs@ == line@,
            forall|m: int| 0 <= m < k ==> !seq_contains(line@, #[trigger] names@[m]@),
        decreases names@.len() - k,
    {
        if contains(cs.as_slice(), to_chars(names[k].as_str()).as_slice()) {
            assert(views(names@)[k as int] == names@[k as int]@);
            return true;
        }
        k += 1;
    }
    proof {
        if line_mentions(line@, views(names@)) {
            let m = choose|m: int| 0 <= m < names@.len() && seq_contains(line@, views(names@)[m]);
            assert(views(names@)[m] == names@[m]@);
        }
    }
    false
}

/// Keeps the lines of `raw_source` that lie within five lines of a line
/// mentioning one of the cluster's type names, marking the gaps between
/// runs; the whole source when the cluster names no type.
pub fn extract_relevant_source(raw_source: &str, cluster: &ItemCluster) -> (res: String)
    ensures
        res@ == relevant_source(raw_source@, type_names_of(cluster@)),
{
    let names = cluster.type_names_referenced();
    if names.len() == 0 {
        return String::from_str(raw_source);
    }
    let lines = lines_of(raw_source);
    let ghost ls = views(lines@);
    let ghost nv = views(names@);
    let n = lines.len();
    let mut mentions: Vec<bool> = Vec::new();
    let mut j: usize = 0;
    while j < n
        invariant
            j <= n == lines@.len(),
            ls == views(lines@),
            nv == views(names@),
            mentions@.len() == j,
            forall|m: int| 0 <= m < j ==> #[trigger] mentions@[m] == line_mentions(ls[m], nv),
        decreases n - j,
    {
        let b = line_mentions_exec(lines[j].as_str(), &names);
        mentions.push(b);
        j += 1;
    }
    let mut out = String::new();
    let mut in_section = false;
    let mut started = false;
    let mut i: usize = 0;
    while i < n
        invariant
            started == (out@.len() > 0),
            i <= n == lines@.len(),
            ls == views(lines@),
            nv == views(names@),
            mentions@.len() == n,
            forall|m: int| 0 <= m < n ==> #[trigger] mentions@[m] == line_mentions(ls[m], nv),
            out@ == rel_scan(ls, nv, i as int).out,
            in_section == rel_scan(ls, nv, i as int).in_section,
        decreases n - i,
    {
        let lo: usize = if i >= 5 { i - 5 } else { 0 };
        let hi: usize = if n - i > 5 { i + 5 } else { n - 1 };
        let mut near = false;
        let mut j: usize = lo;
        while j <= hi
            invariant
                lo <= j <= hi + 1,
                hi < n,
                mentions@.len() == n,
                near == exists|m: int| lo <= m < j && mentions@[m],
            decreases hi + 1 - j,
        {
            if mentions[j] {
                near = true;
            }
            j += 1;
        }
        proof {
            if near {
                let m = choose|m: int| lo <= m < j && mentions@[m];
                assert(line_mentions(ls[m], nv));
                assert(near_mention(ls, nv, i as int));
            }
            if near_mention(ls, nv, i as int) {
                let m = choose|m: int| 0 <= m < ls.len() && m - 5 <= i <= m + 5 && line_mentions(ls[m], nv);
                assert(mentions@[m]);
                assert(lo <= m <= hi);
            }
        }
        if near {
            if !in_section && started {
                push_str(&mut out, "\n// ... (other code) ...\n\n");
            }
            push_str(&mut out, lines[i].as_str());
            push_str(&mut out, "\n");
            proof {
                reveal_strlit("\n");
            }
            started = true;
            in_section = true;
        } else {
            in_section = false;
        }
        i += 1;
    }
    out
}

// ---------------------------------------------------------------------------
// Truncation
// ---------------------------------------------------------------------------

/// The source cut to at most `max_chars` bytes, with a marker, when it is
/// longer. The cut falls at the last character boundary within the limit.
pub open spec fn truncated(source: Seq<char>, max_chars: nat) -> Seq<char> {
    if byte_len(source) <= max_chars {
        source
    } else {
        prefix_within(source, max_chars) + "\n// ... (truncated) ..."@
    }
}

/// Truncates source to about `max_chars` bytes, marking the cut.
pub fn truncate_source(source: &str, max_chars: usize) -> (res: String)
    ensures
        res@ == truncated(source@, max_chars as nat),
{
    let cs = to_chars(source);
    if byte_len_at_most(cs.as_slice(), max_chars) {
        String::from_str(source)
    } else {
        let p = prefix_within_bytes(cs.as_slice(), max_chars);
        let mut out = from_chars(p.as_slice());
        push_str(&mut out, "\n// ... (truncated) ...");
        out
    }
}

// ---------------------------------------------------------------------------
// Building the chunks of a module
// ---------------------------------------------------------------------------

pub open spec fn items_structs(items: Seq<CodeItemV>) -> Seq<StructDefV>
    decreases items.len(),
{
    if items.len() == 0 {
        Seq::empty()
    } else {
        let rest = items_structs(items.drop_last());
        match items.last() {
            CodeItemV::Struct(s) => rest.push(s),
            _ => rest,
        }
    }
}

pub open spec fn items_enums(items: Seq<CodeItemV>) -> Seq<EnumDefV>
    decreases items.len(),
{
    if items.len() == 0 {
        Seq::empty()
    } else {
        let rest = items_enums(items.drop_last());
        match items.last() {
            CodeItemV::Enum(e) => rest.push(e),
            _ => rest,
        }
    }
}

pub open spec fn items_functions(items: Seq<CodeItemV>) -> Seq<FunctionDefV>
    decreases items.len(),
{
    if items.len() == 0 {
        Seq::empty()
    } else {
        let rest = items_functions(items.drop_last());
        match items.last() {
            CodeItemV::Function(f) => rest.push(f),
            _ => rest,
        }
    }
}

pub open spec fn items_traits(items: Seq<CodeItemV>) -> Seq<TraitDefV>
    decreases items.len(),
{
    if items.len() == 0 {
        Seq::empty()
    } else {
        let rest = items_traits(items.drop_last());
        match items.last() {
            CodeItemV::Trait(t) => rest.push(t),
            _ => rest,
        }
    }
}

pub open spec fn items_impls(items: Seq<CodeItemV>) -> Seq<ImplBlockV>
    decreases items.len(),
{
    if items.len() == 0 {
        Seq::empty()
    } else {
        let rest = items_impls(items.drop_last());
        match items.last() {
            CodeItemV::Impl(i) => rest.push(i),
            _ => rest,
        }
    }
}

/// All items of a module as one cluster.
pub open spec fn whole_cluster(items: Seq<CodeItemV>) -> ItemClusterV {
    ItemClusterV {
        anchor_type: None,
        structs: items_structs(items),
        enums: items_enums(items),
        functions: items_functions(items),
        traits: items_traits(items),
        impl_blocks: items_impls(items),
    }
}

/// A module is worth analyzing when it has a struct, enum, function or
/// trait, or an impl block with a method.
pub open spec fn has_content(items: Seq<CodeItemV>) -> bool {
    cluster_nonempty(whole_cluster(items))
}

pub open spec fn without_body(f: FunctionDefV) -> FunctionDefV {
    FunctionDefV { body_summary: None, ..f }
}

pub open spec fn impl_without_bodies(b: ImplBlockV) -> ImplBlockV {
    ImplBlockV { methods: b.methods.map_values(|m: FunctionDefV| without_body(m)), ..b }
}

/// The cluster with the bodies of its functions and methods left out.
pub open spec fn stripped(c: ItemClusterV) -> ItemClusterV {
    ItemClusterV {
        functions: c.functions.map_values(|f: FunctionDefV| without_body(f)),
        impl_blocks: c.impl_blocks.map_values(|b: ImplBlockV| impl_without_bodies(b)),
        ..c
    }
}

/// The cluster, stripped of bodies when it is over the limit.
pub open spec fn fitted(c: ItemClusterV, max_tokens: nat) -> ItemClusterV {
    if estimated_tokens_of(c) > max_tokens {
        stripped(c)
    } else {
        c
    }
}

/// The summaries of all clusters but the one at `i`.
pub open spec fn others(sums: Seq<Seq<char>>, i: int) -> Seq<Seq<char>> {
    sums.take(i) + sums.skip(i + 1)
}

/// The note on the other chunks of a split module.
pub open spec fn sibling_of(sums: Seq<Seq<char>>, i: int) -> Option<Seq<char>> {
    if sums.len() > 1 {
        Some("Other parts of this module contain: "@ + seq_join(others(sums, i), "; "@))
    } else {
        None
    }
}

/// The chunk of the cluster at `i` of a split module.
pub open spec fn cluster_chunk(
    m: ModuleV,
    raw: Seq<char>,
    max_tokens: nat,
    cs: Seq<ItemClusterV>,
    i: int,
) -> AnalysisChunkV {
    let c = cs[i];
    AnalysisChunkV {
        chunk_id: m.name + "#"@ + decimal(i as nat),
        module_name: m.name,
        file_path: m.path,
        raw_source: truncated(relevant_source(raw, type_names_of(c)), max_tokens * 4),
        structs: c.structs,
        enums: c.enums,
        functions: c.functions,
        traits: c.traits,
        impl_blocks: c.impl_blocks,
        sibling_summary: sibling_of(cs.map_values(|c: ItemClusterV| summary_of(c)), i),
    }
}

/// The chunks of a module: none when it holds nothing worth analyzing; one
/// for the whole module when its estimate fits `max_tokens`; else one per
/// cluster (stripped of bodies when still over the limit), each with the
/// source lines relevant to it and a note on the other clusters.
pub open spec fn chunks_of(m: ModuleV, raw: Seq<char>, max_tokens: nat) -> Seq<AnalysisChunkV> {
    let w = whole_cluster(m.items);
    if !has_content(m.items) {
        Seq::empty()
    } else if estimated_tokens_of(w) <= max_tokens {
        seq![
            AnalysisChunkV {
                chunk_id: m.name,
                module_name: m.name,
                file_path: m.path,
                raw_source: truncated(raw, max_tokens * 4),
                structs: w.structs,
                enums: w.enums,
                functions: w.functions,
                traits: w.traits,
                impl_blocks: w.impl_blocks,
                sibling_summary: None,
            },
        ]
    } else {
        let cs = clusters_of(w.structs, w.enums, w.functions, w.traits, w.impl_blocks).map_values(
            |c: ItemClusterV| fitted(c, max_tokens),
        );
        Seq::new(cs.len(), |i: int| cluster_chunk(m, raw, max_tokens, cs, i))
    }
}

fn classify(items: &Vec<CodeItem>) -> (res: ItemCluster)
    ensures
        res@ == whole_cluster(views(items@)),
{
    let ghost iv = views(items@);
    let mut c = ItemCluster {
        anchor_type: None,
        structs: Vec::new(),
        enums: Vec::new(),
        functions: Vec::new(),
        traits: Vec::new(),
        impl_blocks: Vec::new(),
    };
    let mut i: usize = 0;
    proof {
        assert(iv.take(0) =~= Seq::<CodeItemV>::empty());
        assert(c@.structs =~= Seq::<StructDefV>::empty());
        assert(c@.enums =~= Seq::<EnumDefV>::empty());
        assert(c@.functions =~= Seq::<FunctionDefV>::empty());
        assert(c@.traits =~= Seq::<TraitDefV>::empty());
        assert(c@.impl_blocks =~= Seq::<ImplBlockV>::empty());
    }
    while i < items.len()
        invariant
            i <= items@.len(),
            iv == views(items@),
            c@ == whole_cluster(iv.take(i as int)),
        decreases items@.len() - i,
    {
        proof {
            assert(iv.take(i + 1).drop_last() =~= iv.take(i as int));
            assert(iv.take(i + 1).last() == items@[i as int]@);
        }
        let ghost before = c@;
        match &items[i] {
            CodeItem::Struct(s) => {
                c.structs.push(s.dup());
                proof {
                    assert(views(c.structs@) =~= before.structs.push(s@));
                }
            },
            CodeItem::Enum(e) => {
                c.enums.push(e.dup());
                proof {
                    assert(views(c.enums@) =~= before.enums.push(e@));
                }
            },
            CodeItem::Function(f) => {
                c.functions.push(f.dup());
                proof {
                    assert(views(c.functions@) =~= before.functions.push(f@));
                }
            },
            CodeItem::Trait(t) => {
                c.traits.push(t.dup());
                proof {
                    assert(views(c.traits@) =~= before.traits.push(t@));
                }
            },
            CodeItem::Impl(b) => {
                c.impl_blocks.push(b.dup());
                proof {
                    assert(views(c.impl_blocks@) =~= before.impl_blocks.push(b@));
                }
            },
            CodeItem::TypeAlias(_) => {},
        }
        i += 1;
    }
    proof {
        assert(iv.take(iv.len() as int) =~= iv);
    }
    c
}

fn strip_function(f: &mut FunctionDef)
    ensures
        final(f)@ == without_body(old(f)@),
{
    f.body_summary = None;
}

/// Leaves out the bodies of a cluster's functions and methods.
pub fn strip_bodies(cluster: &mut ItemCluster)
    ensures
        final(cluster)@ == stripped(old(cluster)@),
{
    let ghost c0 = cluster@;
    let mut fns: Vec<FunctionDef> = Vec::new();
    std::mem::swap(&mut fns, &mut cluster.functions);
    let mut i: usize = 0;
    while i < fns.len()
        invariant
            i <= fns@.len(),
            fns@.len() == c0.functions.len(),
            forall|k: int| 0 <= k < i ==> #[trigger] fns@[k]@ == without_body(c0.functions[k]),
            forall|k: int| i <= k < fns@.len() ==> #[trigger] fns@[k]@ == c0.functions[k],
        decreases fns@.len() - i,
    {
        let mut f = fns.remove(i);
        strip_function(&mut f);
        fns.insert(i, f);
        i += 1;
    }
    proof {
        assert(views(fns@) =~= c0.functions.map_values(|f: FunctionDefV| without_body(f)));
    }
    cluster.functions = fns;
    let mut blocks: Vec<ImplBlock> = Vec::new();
    std::mem::swap(&mut blocks, &mut cluster.impl_blocks);
    let mut j: usize = 0;
    while j < blocks.len()
        invariant
            j <= blocks@.len(),
            blocks@.len() == c0.impl_blocks.len(),
            forall|k: int| 0 <= k < j ==> #[trigger] blocks@[k]@ == impl_without_bodies(c0.impl_blocks[k]),
            forall|k: int| j <= k < blocks@.len() ==> #[trigger] blocks@[k]@ == c0.impl_blocks[k],
        decreases blocks@.len() - j,
    {
        let mut b = blocks.remove(j);
        let ghost b0 = b@;
        let mut ms: Vec<FunctionDef> = Vec::new();
        std::mem::swap(&mut ms, &mut b.methods);
        let mut k: usize = 0;
        while k < ms.len()
            invariant
                k <= ms@.len(),
                ms@.len() == b0.methods.len(),
                forall|m: int| 0 <= m < k ==> #[trigger] ms@[m]@ == without_body(b0.methods[m]),
                forall|m: int| k <= m < ms@.len() ==> #[trigger] ms@[m]@ == b0.methods[m],
            decreases ms@.len() - k,
        {
            let mut f = ms.remove(k);
            strip_function(&mut f);
            ms.insert(k, f);
            k += 1;
        }
        proof {
            assert(views(ms@) =~= b0.methods.map_values(|m: FunctionDefV| without_body(m)));
        }
        b.methods = ms;
        blocks.insert(j, b);
        j += 1;
    }
    proof {
        assert(views(blocks@) =~= c0.impl_blocks.map_values(|b: ImplBlockV| impl_without_bodies(b)));
    }
    cluster.impl_blocks = blocks;
}

/// Builds the analysis chunks of a module from its items and raw source:
/// one chunk when the module's estimated size fits `max_tokens`, else one
/// chunk per cluster of related items (see `cluster_by_type_affinity`),
/// each with the relevant source lines and a note on the others. Sources are
/// cut to `max_tokens * 4` bytes.
pub fn build_chunks(module: &Module, raw_source: &str, max_tokens: usize) -> (res: Vec<AnalysisChunk>)
    requires
        has_content(module@.items) ==> max_tokens * 4 <= usize::MAX,
    ensures
        views(res@) == chunks_of(module@, raw_source@, max_tokens as nat),
{
    let whole = classify(&module.items);
    if !cluster_nonempty_exec(&whole) {
        return Vec::new();
    }
    let max_chars = max_tokens * 4;
    if whole.estimated_tokens() <= max_tokens {
        let c = AnalysisChunk {
            chunk_id: module.name.clone(),
            module_name: module.name.clone(),
            file_path: module.path.clone(),
            raw_source: truncate_source(raw_source, max_chars),
            structs: whole.structs,
            enums: whole.enums,
            functions: whole.functions,
            traits: whole.traits,
            impl_blocks: whole.impl_blocks,
            sibling_summary: None,
        };
        let v = vec![c];
        proof {
            assert(views(v@) =~= chunks_of(module@, raw_source@, max_tokens as nat));
        }
        return v;
    }
    let ghost w = whole@;
    let mut clusters = cluster_by_type_affinity(
        whole.structs,
        whole.enums,
        whole.functions,
        whole.traits,
        whole.impl_blocks,
    );
    let ghost cs0 = views(clusters@);
    let ghost cs = cs0.map_values(|c: ItemClusterV| fitted(c, max_tokens as nat));
    let n = clusters.len();
    let mut i: usize = 0;
    while i < n
        invariant
            i <= n == clusters@.len() == cs0.len(),
            cs == cs0.map_values(|c: ItemClusterV| fitted(c, max_tokens as nat)),
            forall|k: int| 0 <= k < i ==> #[trigger] clusters@[k]@ == cs[k],
            forall|k: int| i <= k < n ==> #[trigger] clusters@[k]@ == cs0[k],
        decreases n - i,
    {
        let mut c = clusters.remove(i);
        if c.estimated_tokens() > max_tokens {
            strip_bodies(&mut c);
        }
        clusters.insert(i, c);
        i += 1;
    }
    let mut sums: Vec<String> = Vec::new();
    let mut i: usize = 0;
    while i < n
        invariant
            i <= n == clusters@.len() == cs.len(),
            forall|k: int| 0 <= k < n ==> #[trigger] clusters@[k]@ == cs[k],
            sums@.len() == i,
            forall|k: int| 0 <= k < i ==> #[trigger] sums@[k]@ == summary_of(cs[k]),
        decreases n - i,
    {
        sums.push(clusters[i].summary());
        i += 1;
    }
    let ghost sv = cs.map_values(|c: ItemClusterV| summary_of(c));
    proof {
        assert(views(sums@) =~= sv);
    }
    let mut out: Vec<AnalysisChunk> = Vec::new();
    let mut i: usize = 0;
    while i < n
        invariant
            i <= n == clusters@.len() == cs.len() == sums@.len(),
            forall|k: int| 0 <= k < n ==> #[trigger] clusters@[k]@ == cs[k],
            views(sums@) == sv,
            sv == cs.map_values(|c: ItemClusterV| summary_of(c)),
            max_chars == max_tokens * 4,
            out@.len() == i,
            forall|k: int| 0 <= k < i ==> #[trigger] out@[k]@ == cluster_chunk(module@, raw_source@, max_tokens as nat, cs, k),
        decreases n - i,
    {
        let c = &clusters[i];
        let sibling = if n > 1 {
            let mut rest: Vec<String> = Vec::new();
            let mut j: usize = 0;
            while j < n
                invariant
                    j <= n == sums@.len(),
                    i < n,
                    views(sums@) == sv,
                    views(rest@) == (if j <= i { sv.take(j as int) } else { sv.take(i as int) + sv.subrange(i + 1, j as int) }),
                decreases n - j,
            {
                if j != i {
                    let ghost before = views(rest@);
                    let sj = sums[j].clone();
                    rest.push(sj);
                    proof {
                        assert(sums@[j as int]@ == sv[j as int]);
                        assert(sj@ == sv[j as int]);
                        assert(views(rest@) =~= before.push(sv[j as int]));
                        if j < i {
                            assert(views(rest@) =~= sv.take(j + 1));
                        } else {
                            assert(views(rest@) =~= sv.take(i as int) + sv.subrange(i + 1, j + 1));
                        }
                    }
                } else {
                    proof {
                        assert(sv.take(i as int) + sv.subrange(i + 1, i + 1) =~= sv.take(i as int));
                    }
                }
                j += 1;
            }
            proof {
                assert(sv.take(i as int) + sv.subrange(i + 1, n as int) =~= others(sv, i as int));
            }
            let mut s = String::from_str("Other parts of this module contain: ");
            let joined = join(&rest, "; ");
            push_str(&mut s, joined.as_str());
            Some(s)
        } else {
            None
        };
        let mut id = module.name.clone();
        push_str(&mut id, "#");
        let num = usize_to_string(i);
        push_str(&mut id, num.as_str());
        let relevant = extract_relevant_source(raw_source, c);
        let chunk = AnalysisChunk {
            chunk_id: id,
            module_name: module.name.clone(),
            file_path: module.path.clone(),
            raw_source: truncate_source(relevant.as_str(), max_chars),
            structs: dup_vec(&c.structs),
            enums: dup_vec(&c.enums),
            functions: dup_vec(&c.functions),
            traits: dup_vec(&c.traits),
            impl_blocks: dup_vec(&c.impl_blocks),
            sibling_summary: sibling,
        };
        proof {
            assert(chunk@ == cluster_chunk(module@, raw_source@, max_tokens as nat, cs, i as int));
        }
        out.push(chunk);
        i += 1;
    }
    proof {
        assert(views(out@) =~= chunks_of(module@, raw_source@, max_tokens as nat));
    }
    out
}

/// A chunk's source, cut to `max_tokens * 4` bytes, takes at most that
/// many bytes and the 23 of the cut marker.
proof fn lemma_truncated_bound(source: Seq<char>, max_chars: nat)
    ensures
        byte_len(truncated(source, max_chars)) <= max_chars + 23,
{
    if byte_len(source) > max_chars {
        crate::text::lemma_prefix_within_bound(source, max_chars);
        crate::text::lemma_byte_len_concat(prefix_within(source, max_chars), "\n// ... (truncated) ..."@);
        reveal_strlit("\n// ... (truncated) ...");
        crate::text::lemma_byte_len_ascii("\n// ... (truncated) ..."@);
    }
}

/// The chunks of a module carry a note on the other chunks exactly when
/// the module was split into more than one, and no chunk's source takes
/// more than `max_tokens * 4` bytes and the 23 of the cut marker.
pub proof fn law_chunk_notes_and_sizes(m: ModuleV, raw: Seq<char>, max_tokens: nat)
    ensures
        ({
            let cs = chunks_of(m, raw, max_tokens);
            &&& forall|k: int| 0 <= k < cs.len() ==> ((#[trigger] cs[k]).sibling_summary is Some <==> cs.len() > 1)
            &&& forall|k: int| 0 <= k < cs.len() ==> byte_len((#[trigger] cs[k]).raw_source) <= max_tokens * 4 + 23
        }),
{
    let cs = chunks_of(m, raw, max_tokens);
    assert forall|k: int| 0 <= k < cs.len() implies ((#[trigger] cs[k]).sibling_summary is Some <==> cs.len() > 1)
        && byte_len(cs[k].raw_source) <= max_tokens * 4 + 23 by {
        let w = whole_cluster(m.items);
        if estimated_tokens_of(w) <= max_tokens {
            lemma_truncated_bound(raw, max_tokens * 4);
        } else {
            let cl = clusters_of(w.structs, w.enums, w.functions, w.traits, w.impl_blocks).map_values(
                |c: ItemClusterV| fitted(c, max_tokens),
            );
            lemma_truncated_bound(relevant_source(raw, type_names_of(cl[k])), max_tokens * 4);
            assert(cs[k] == cluster_chunk(m, raw, max_tokens, cl, k));
        }
    }
}

} // verus!
