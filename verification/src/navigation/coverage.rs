//! What the chunks of a module cover: every chunk belongs to the module, and
//! the structs, enums, free functions, traits and impl blocks with methods
//! of the module are shared out among the chunks, each in exactly one.
use vstd::prelude::*;
use vstd::multiset::Multiset;
use crate::navigation::chunk::{AnalysisChunkV, ItemClusterV};
use crate::navigation::context::{
    any_methods, chunks_of, claimed_fns, claimed_impls, cluster_chunk, cluster_nonempty,
    clusters_of, fitted, has_content, impl_without_bodies, mark_fns, mark_impls,
    nonempty_pred, over_enums, over_structs, anchored, unused_fns, unused_impls, whole_cluster,
    without_body, ClusterState,
};
use crate::parser::ast::{EnumDefV, FunctionDefV, ImplBlockV, StructDefV, TraitDefV};
use crate::parser::module_graph::ModuleV;

verus! {

/// The names of the functions, with their multiplicities.
pub open spec fn fn_names(fs: Seq<FunctionDefV>) -> Multiset<Seq<char>>
    decreases fs.len(),
{
    if fs.len() == 0 {
        Multiset::empty()
    } else {
        fn_names(fs.drop_last()).insert(fs.last().name)
    }
}

proof fn lemma_fn_names_push(s: Seq<FunctionDefV>, f: FunctionDefV)
    ensures
        fn_names(s.push(f)) == fn_names(s).insert(f.name),
{
    assert(s.push(f).drop_last() =~= s);
}

proof fn lemma_fn_names_len(s: Seq<FunctionDefV>)
    ensures
        fn_names(s).len() == s.len(),
    decreases s.len(),
{
    if s.len() > 0 {
        lemma_fn_names_len(s.drop_last());
    }
}

/// With no flag set, no function is left out.
proof fn lemma_unused_all(fns: Seq<FunctionDefV>, u: Seq<bool>)
    requires
        u.len() >= fns.len(),
        forall|i: int| 0 <= i < fns.len() ==> !u[i],
    ensures
        unused_fns(fns, u) == fns,
    decreases fns.len(),
{
    if fns.len() > 0 {
        lemma_unused_all(fns.drop_last(), u);
        assert(unused_fns(fns.drop_last(), u).push(fns.last()) =~= fns);
    }
}

/// Claiming the functions that mention a name splits the unclaimed ones in
/// two: those claimed and those still unclaimed after.
proof fn lemma_claim_split(name: Seq<char>, fns: Seq<FunctionDefV>, u: Seq<bool>, u2: Seq<bool>)
    requires
        u.len() >= fns.len(),
        u2.len() >= fns.len(),
        forall|i: int| 0 <= i < fns.len() ==> #[trigger] u2[i] == (u[i] || crate::text::seq_contains(fns[i].signature, name)),
    ensures
        fn_names(claimed_fns(name, fns, u)).add(fn_names(unused_fns(fns, u2))) =~= fn_names(unused_fns(fns, u)),
    decreases fns.len(),
{
    if fns.len() > 0 {
        let i = fns.len() - 1;
        lemma_claim_split(name, fns.drop_last(), u, u2);
        let c0 = claimed_fns(name, fns.drop_last(), u);
        let a0 = unused_fns(fns.drop_last(), u2);
        let b0 = unused_fns(fns.drop_last(), u);
        assert(u2[i] == (u[i] || crate::text::seq_contains(fns[i].signature, name)));
        lemma_fn_names_push(c0, fns[i]);
        lemma_fn_names_push(a0, fns[i]);
        lemma_fn_names_push(b0, fns[i]);
    }
}

proof fn lemma_fn_names_unbodied(s: Seq<FunctionDefV>)
    ensures
        fn_names(s.map_values(|f: FunctionDefV| without_body(f))) == fn_names(s),
    decreases s.len(),
{
    if s.len() > 0 {
        lemma_fn_names_unbodied(s.drop_last());
        assert(s.map_values(|f: FunctionDefV| without_body(f)).drop_last() =~= s.drop_last().map_values(
            |f: FunctionDefV| without_body(f),
        ));
    }
}

// ---------------------------------------------------------------------------
// The other kinds of items
// ---------------------------------------------------------------------------

pub open spec fn struct_names(s: Seq<StructDefV>) -> Multiset<Seq<char>>
    decreases s.len(),
{
    if s.len() == 0 {
        Multiset::empty()
    } else {
        struct_names(s.drop_last()).insert(s.last().name)
    }
}

pub open spec fn enum_names(s: Seq<EnumDefV>) -> Multiset<Seq<char>>
    decreases s.len(),
{
    if s.len() == 0 {
        Multiset::empty()
    } else {
        enum_names(s.drop_last()).insert(s.last().name)
    }
}

pub open spec fn trait_names(s: Seq<TraitDefV>) -> Multiset<Seq<char>>
    decreases s.len(),
{
    if s.len() == 0 {
        Multiset::empty()
    } else {
        trait_names(s.drop_last()).insert(s.last().name)
    }
}

/// The types of the impl blocks that have a method, with multiplicities.
pub open spec fn method_impl_types(s: Seq<ImplBlockV>) -> Multiset<Seq<char>>
    decreases s.len(),
{
    if s.len() == 0 {
        Multiset::empty()
    } else if s.last().methods.len() > 0 {
        method_impl_types(s.drop_last()).insert(s.last().self_type)
    } else {
        method_impl_types(s.drop_last())
    }
}

/// The names of one kind of item of a cluster: structs (0), enums (1), free
/// functions (2), traits (3), and the types of impl blocks with a method (4).
pub open spec fn names_in(c: ItemClusterV, k: int) -> Multiset<Seq<char>> {
    if k == 0 {
        struct_names(c.structs)
    } else if k == 1 {
        enum_names(c.enums)
    } else if k == 2 {
        fn_names(c.functions)
    } else if k == 3 {
        trait_names(c.traits)
    } else {
        method_impl_types(c.impl_blocks)
    }
}

pub open spec fn cluster_names(cs: Seq<ItemClusterV>, k: int) -> Multiset<Seq<char>>
    decreases cs.len(),
{
    if cs.len() == 0 {
        Multiset::empty()
    } else {
        cluster_names(cs.drop_last(), k).add(names_in(cs.last(), k))
    }
}

/// The items a chunk holds, as a cluster.
pub open spec fn held(c: AnalysisChunkV) -> ItemClusterV {
    ItemClusterV {
        anchor_type: None,
        structs: c.structs,
        enums: c.enums,
        functions: c.functions,
        traits: c.traits,
        impl_blocks: c.impl_blocks,
    }
}

/// The names of one kind of item over all chunks.
pub open spec fn chunk_names(cs: Seq<AnalysisChunkV>, k: int) -> Multiset<Seq<char>>
    decreases cs.len(),
{
    if cs.len() == 0 {
        Multiset::empty()
    } else {
        chunk_names(cs.drop_last(), k).add(names_in(held(cs.last()), k))
    }
}

proof fn lemma_struct_names_len(s: Seq<StructDefV>)
    ensures
        struct_names(s).len() == s.len(),
    decreases s.len(),
{
    if s.len() > 0 {
        lemma_struct_names_len(s.drop_last());
    }
}

proof fn lemma_enum_names_len(s: Seq<EnumDefV>)
    ensures
        enum_names(s).len() == s.len(),
    decreases s.len(),
{
    if s.len() > 0 {
        lemma_enum_names_len(s.drop_last());
    }
}

proof fn lemma_trait_names_len(s: Seq<TraitDefV>)
    ensures
        trait_names(s).len() == s.len(),
    decreases s.len(),
{
    if s.len() > 0 {
        lemma_trait_names_len(s.drop_last());
    }
}

proof fn lemma_method_impls_len(s: Seq<ImplBlockV>)
    ensures
        method_impl_types(s).len() > 0 <==> any_methods(s),
    decreases s.len(),
{
    if s.len() > 0 {
        lemma_method_impls_len(s.drop_last());
        if any_methods(s.drop_last()) {
            let i = choose|i: int| 0 <= i < s.drop_last().len() && s.drop_last()[i].methods.len() > 0;
            assert(s[i].methods.len() > 0);
        }
        if any_methods(s) && s.last().methods.len() == 0 {
            let i = choose|i: int| 0 <= i < s.len() && s[i].methods.len() > 0;
            assert(s.drop_last()[i].methods.len() > 0);
        }
        if s.last().methods.len() > 0 {
            assert(s[s.len() - 1].methods.len() > 0);
        }
    }
}

/// A cluster holds something of some kind exactly when it is worth
/// analyzing.
proof fn lemma_nonempty_names(c: ItemClusterV)
    ensures
        cluster_nonempty(c) <==> exists|k: int| 0 <= k < 5 && #[trigger] names_in(c, k).len() > 0,
{
    lemma_struct_names_len(c.structs);
    lemma_enum_names_len(c.enums);
    lemma_fn_names_len(c.functions);
    lemma_trait_names_len(c.traits);
    lemma_method_impls_len(c.impl_blocks);
    if cluster_nonempty(c) {
        if c.structs.len() > 0 {
            assert(names_in(c, 0).len() > 0);
        } else if c.enums.len() > 0 {
            assert(names_in(c, 1).len() > 0);
        } else if c.functions.len() > 0 {
            assert(names_in(c, 2).len() > 0);
        } else if c.traits.len() > 0 {
            assert(names_in(c, 3).len() > 0);
        } else {
            assert(names_in(c, 4).len() > 0);
        }
    }
}

proof fn lemma_multiset_len_zero(m: Multiset<Seq<char>>)
    requires
        m.len() == 0,
    ensures
        m =~= Multiset::empty(),
{
    vstd::multiset::lemma_multiset_empty_len(m);
}

/// Dropping the empty clusters drops nothing of any kind.
proof fn lemma_filter_keeps_names(cs: Seq<ItemClusterV>, k: int)
    ensures
        cluster_names(cs.filter(nonempty_pred()), k) =~= cluster_names(cs, k),
    decreases cs.len(),
{
    reveal(Seq::filter);
    if cs.len() > 0 {
        lemma_filter_keeps_names(cs.drop_last(), k);
        let f = cs.drop_last().filter(nonempty_pred());
        if cluster_nonempty(cs.last()) {
            assert(f.push(cs.last()).drop_last() =~= f);
        } else {
            lemma_nonempty_names(cs.last());
            if 0 <= k < 5 {
                assert(names_in(cs.last(), k).len() == 0);
                lemma_multiset_len_zero(names_in(cs.last(), k));
            } else {
                assert(names_in(cs.last(), k) == names_in(cs.last(), 4));
                assert(names_in(cs.last(), 4).len() == 0);
                lemma_multiset_len_zero(names_in(cs.last(), 4));
            }
        }
    }
}

proof fn lemma_method_impls_unbodied(s: Seq<ImplBlockV>)
    ensures
        method_impl_types(s.map_values(|b: ImplBlockV| impl_without_bodies(b))) == method_impl_types(s),
    decreases s.len(),
{
    if s.len() > 0 {
        lemma_method_impls_unbodied(s.drop_last());
        assert(s.map_values(|b: ImplBlockV| impl_without_bodies(b)).drop_last() =~= s.drop_last().map_values(
            |b: ImplBlockV| impl_without_bodies(b),
        ));
    }
}

/// Stripping bodies keeps the names of every kind.
proof fn lemma_fitted_keeps_names(cs: Seq<ItemClusterV>, max_tokens: nat, k: int)
    ensures
        cluster_names(cs.map_values(|c: ItemClusterV| fitted(c, max_tokens)), k) =~= cluster_names(cs, k),
    decreases cs.len(),
{
    if cs.len() > 0 {
        let c = cs.last();
        lemma_fitted_keeps_names(cs.drop_last(), max_tokens, k);
        assert(cs.map_values(|c: ItemClusterV| fitted(c, max_tokens)).drop_last() =~= cs.drop_last().map_values(
            |c: ItemClusterV| fitted(c, max_tokens),
        ));
        lemma_fn_names_unbodied(c.functions);
        lemma_method_impls_unbodied(c.impl_blocks);
        assert(names_in(fitted(c, max_tokens), k) == names_in(c, k));
    }
}

/// Chunks that hold the items of the clusters, one for one, hold the same
/// names.
proof fn lemma_chunks_follow_clusters(ch: Seq<AnalysisChunkV>, cs: Seq<ItemClusterV>, k: int)
    requires
        ch.len() == cs.len(),
        forall|i: int| 0 <= i < ch.len() ==> names_in(held(#[trigger] ch[i]), k) == names_in(cs[i], k),
    ensures
        chunk_names(ch, k) == cluster_names(cs, k),
    decreases ch.len(),
{
    if ch.len() > 0 {
        assert(names_in(held(ch[ch.len() - 1]), k) == names_in(cs[cs.len() - 1], k));
        lemma_chunks_follow_clusters(ch.drop_last(), cs.drop_last(), k);
    }
}

// ---------------------------------------------------------------------------
// Impl blocks are claimed as functions are
// ---------------------------------------------------------------------------

proof fn lemma_unused_impls_all(impls: Seq<ImplBlockV>, u: Seq<bool>)
    requires
        u.len() >= impls.len(),
        forall|i: int| 0 <= i < impls.len() ==> !u[i],
    ensures
        unused_impls(impls, u) == impls,
    decreases impls.len(),
{
    if impls.len() > 0 {
        lemma_unused_impls_all(impls.drop_last(), u);
        assert(unused_impls(impls.drop_last(), u).push(impls.last()) =~= impls);
    }
}

proof fn lemma_method_impls_push(s: Seq<ImplBlockV>, b: ImplBlockV)
    ensures
        method_impl_types(s.push(b)) == (if b.methods.len() > 0 {
            method_impl_types(s).insert(b.self_type)
        } else {
            method_impl_types(s)
        }),
{
    assert(s.push(b).drop_last() =~= s);
}

proof fn lemma_claim_impls_split(name: Seq<char>, impls: Seq<ImplBlockV>, u: Seq<bool>, u2: Seq<bool>)
    requires
        u.len() >= impls.len(),
        u2.len() >= impls.len(),
        forall|i: int| 0 <= i < impls.len() ==> #[trigger] u2[i] == (u[i] || crate::text::seq_contains(impls[i].self_type, name)),
    ensures
        method_impl_types(claimed_impls(name, impls, u)).add(method_impl_types(unused_impls(impls, u2)))
            =~= method_impl_types(unused_impls(impls, u)),
    decreases impls.len(),
{
    if impls.len() > 0 {
        let i = impls.len() - 1;
        lemma_claim_impls_split(name, impls.drop_last(), u, u2);
        assert(u2[i] == (u[i] || crate::text::seq_contains(impls[i].self_type, name)));
        lemma_method_impls_push(claimed_impls(name, impls.drop_last(), u), impls[i]);
        lemma_method_impls_push(unused_impls(impls.drop_last(), u2), impls[i]);
        lemma_method_impls_push(unused_impls(impls.drop_last(), u), impls[i]);
    }
}

// ---------------------------------------------------------------------------
// Sharing out a module's items
// ---------------------------------------------------------------------------

/// What holds of the clusters made so far: of each kind, the clusters hold
/// the structs and enums anchored so far, no trait, and with the functions
/// and impl blocks not claimed yet, all functions and impl blocks.
pub open spec fn shared(
    st: ClusterState,
    structs: Multiset<Seq<char>>,
    enums: Multiset<Seq<char>>,
    impls: Seq<ImplBlockV>,
    fns: Seq<FunctionDefV>,
) -> bool {
    &&& st.used_fn.len() == fns.len()
    &&& st.used_impl.len() == impls.len()
    &&& cluster_names(st.clusters, 0) =~= structs
    &&& cluster_names(st.clusters, 1) =~= enums
    &&& cluster_names(st.clusters, 3) =~= Multiset::empty()
    &&& cluster_names(st.clusters, 2).add(fn_names(unused_fns(fns, st.used_fn))) =~= fn_names(fns)
    &&& cluster_names(st.clusters, 4).add(method_impl_types(unused_impls(impls, st.used_impl)))
        =~= method_impl_types(impls)
}

proof fn lemma_anchored_shared(
    st: ClusterState,
    ss: Multiset<Seq<char>>,
    es: Multiset<Seq<char>>,
    name: Seq<char>,
    structs: Seq<StructDefV>,
    enums: Seq<EnumDefV>,
    impls: Seq<ImplBlockV>,
    fns: Seq<FunctionDefV>,
)
    requires
        shared(st, ss, es, impls, fns),
    ensures
        shared(anchored(st, name, structs, enums, impls, fns), ss.add(struct_names(structs)), es.add(enum_names(enums)), impls, fns),
{
    let st2 = anchored(st, name, structs, enums, impls, fns);
    let u2 = mark_fns(name, fns, st.used_fn);
    assert forall|i: int| 0 <= i < fns.len() implies #[trigger] u2[i] == (st.used_fn[i]
        || crate::text::seq_contains(fns[i].signature, name)) by {}
    lemma_claim_split(name, fns, st.used_fn, u2);
    let v2 = mark_impls(name, impls, st.used_impl);
    assert forall|i: int| 0 <= i < impls.len() implies #[trigger] v2[i] == (st.used_impl[i]
        || crate::text::seq_contains(impls[i].self_type, name)) by {}
    lemma_claim_impls_split(name, impls, st.used_impl, v2);
    assert(st2.clusters.drop_last() =~= st.clusters);
    assert(trait_names(Seq::<TraitDefV>::empty()) == Multiset::<Seq<char>>::empty());
}

proof fn lemma_over_structs_shared(structs: Seq<StructDefV>, impls: Seq<ImplBlockV>, fns: Seq<FunctionDefV>)
    ensures
        shared(over_structs(structs, impls, fns), struct_names(structs), Multiset::empty(), impls, fns),
    decreases structs.len(),
{
    if structs.len() == 0 {
        lemma_unused_all(fns, Seq::new(fns.len(), |i: int| false));
        lemma_unused_impls_all(impls, Seq::new(impls.len(), |i: int| false));
    } else {
        let s = structs.last();
        lemma_over_structs_shared(structs.drop_last(), impls, fns);
        lemma_anchored_shared(
            over_structs(structs.drop_last(), impls, fns),
            struct_names(structs.drop_last()),
            Multiset::empty(),
            s.name,
            seq![s],
            Seq::empty(),
            impls,
            fns,
        );
        assert(seq![s].drop_last() =~= Seq::<StructDefV>::empty());
        assert(enum_names(Seq::<EnumDefV>::empty()) == Multiset::<Seq<char>>::empty());
        assert(struct_names(Seq::<StructDefV>::empty()) == Multiset::<Seq<char>>::empty());
        assert(struct_names(seq![s]) == struct_names(seq![s].drop_last()).insert(s.name));
        assert(struct_names(structs) =~= struct_names(structs.drop_last()).add(struct_names(seq![s])));
        assert(Multiset::<Seq<char>>::empty().add(enum_names(Seq::<EnumDefV>::empty())) =~= Multiset::<Seq<char>>::empty());
    }
}

proof fn lemma_over_enums_shared(
    st: ClusterState,
    ss: Multiset<Seq<char>>,
    enums: Seq<EnumDefV>,
    impls: Seq<ImplBlockV>,
    fns: Seq<FunctionDefV>,
)
    requires
        shared(st, ss, Multiset::empty(), impls, fns),
    ensures
        shared(over_enums(st, enums, impls, fns), ss, enum_names(enums), impls, fns),
    decreases enums.len(),
{
    if enums.len() > 0 {
        let e = enums.last();
        lemma_over_enums_shared(st, ss, enums.drop_last(), impls, fns);
        lemma_anchored_shared(
            over_enums(st, enums.drop_last(), impls, fns),
            ss,
            enum_names(enums.drop_last()),
            e.name,
            Seq::empty(),
            seq![e],
            impls,
            fns,
        );
        assert(seq![e].drop_last() =~= Seq::<EnumDefV>::empty());
        assert(struct_names(Seq::<StructDefV>::empty()) == Multiset::<Seq<char>>::empty());
        assert(enum_names(Seq::<EnumDefV>::empty()) == Multiset::<Seq<char>>::empty());
        assert(enum_names(seq![e]) == enum_names(seq![e].drop_last()).insert(e.name));
        assert(enum_names(enums) =~= enum_names(enums.drop_last()).add(enum_names(seq![e])));
        assert(ss.add(struct_names(Seq::<StructDefV>::empty())) =~= ss);
    }
}

/// The clusters of a module's items hold, of each kind, exactly the items
/// of that kind.
proof fn lemma_clusters_share(w: ItemClusterV, k: int)
    requires
        0 <= k < 5,
    ensures
        cluster_names(clusters_of(w.structs, w.enums, w.functions, w.traits, w.impl_blocks), k) =~= names_in(w, k),
{
    let fns = w.functions;
    let impls = w.impl_blocks;
    let st0 = over_structs(w.structs, impls, fns);
    let st = over_enums(st0, w.enums, impls, fns);
    lemma_over_structs_shared(w.structs, impls, fns);
    lemma_over_enums_shared(st0, struct_names(w.structs), w.enums, impls, fns);
    let ri = unused_impls(impls, st.used_impl);
    let rf = unused_fns(fns, st.used_fn);
    let loose = ItemClusterV {
        anchor_type: None,
        structs: Seq::empty(),
        enums: Seq::empty(),
        functions: rf,
        traits: w.traits,
        impl_blocks: ri,
    };
    let all = if ri.len() > 0 || rf.len() > 0 || w.traits.len() > 0 {
        st.clusters.push(loose)
    } else {
        st.clusters
    };
    assert(struct_names(Seq::<StructDefV>::empty()) == Multiset::<Seq<char>>::empty());
    assert(enum_names(Seq::<EnumDefV>::empty()) == Multiset::<Seq<char>>::empty());
    if ri.len() > 0 || rf.len() > 0 || w.traits.len() > 0 {
        assert(all.drop_last() =~= st.clusters);
        assert(cluster_names(all, k) == cluster_names(st.clusters, k).add(names_in(loose, k)));
        if k == 0 {
            assert(names_in(loose, k) == Multiset::<Seq<char>>::empty());
        } else if k == 1 {
            assert(names_in(loose, k) == Multiset::<Seq<char>>::empty());
        } else if k == 2 {
            assert(names_in(loose, k) == fn_names(rf));
        } else if k == 3 {
            assert(names_in(loose, k) == trait_names(w.traits));
        } else {
            assert(names_in(loose, k) == method_impl_types(ri));
        }
    } else {
        assert(fn_names(rf) == Multiset::<Seq<char>>::empty());
        assert(method_impl_types(ri) == Multiset::<Seq<char>>::empty());
        assert(trait_names(w.traits) == Multiset::<Seq<char>>::empty());
    }
    assert(cluster_names(all, k) =~= names_in(w, k));
    lemma_filter_keeps_names(all, k);
}

/// Every chunk of a module names the module and its file; of each kind of
/// item (structs, enums, free functions, traits, and impl blocks with a
/// method) the chunks together hold exactly the module's items, counted by
/// name with multiplicity, so each item is in exactly one chunk; and there
/// are chunks exactly when the module holds something worth analyzing.
pub proof fn law_chunks_share_items(m: ModuleV, raw: Seq<char>, max_tokens: nat)
    ensures
        ({
            let cs = chunks_of(m, raw, max_tokens);
            &&& forall|i: int| 0 <= i < cs.len() ==> (#[trigger] cs[i]).module_name == m.name
                && cs[i].file_path == m.path
            &&& forall|k: int| 0 <= k < 5 ==> #[trigger] chunk_names(cs, k) =~= names_in(whole_cluster(m.items), k)
            &&& (cs.len() == 0 <==> !has_content(m.items))
        }),
{
    let cs = chunks_of(m, raw, max_tokens);
    let w = whole_cluster(m.items);
    lemma_nonempty_names(w);
    if !has_content(m.items) {
        assert forall|k: int| 0 <= k < 5 implies #[trigger] chunk_names(cs, k) =~= names_in(w, k) by {
            assert(names_in(w, k).len() == 0);
            lemma_multiset_len_zero(names_in(w, k));
        }
    } else if crate::navigation::chunk::estimated_tokens_of(w) <= max_tokens {
        assert(cs.drop_last().len() == 0);
        assert forall|k: int| 0 <= k < 5 implies #[trigger] chunk_names(cs, k) =~= names_in(w, k) by {
            assert(held(cs[0]) == ItemClusterV { anchor_type: None, ..w });
            assert(names_in(held(cs.last()), k) == names_in(w, k));
            assert(chunk_names(cs.drop_last(), k) == Multiset::<Seq<char>>::empty());
        }
    } else {
        let filtered = clusters_of(w.structs, w.enums, w.functions, w.traits, w.impl_blocks);
        let fit = filtered.map_values(|c: ItemClusterV| fitted(c, max_tokens));
        assert(cs.len() == fit.len());
        assert forall|i: int| 0 <= i < cs.len() implies (#[trigger] cs[i]).module_name == m.name
            && cs[i].file_path == m.path && held(cs[i]) == ItemClusterV { anchor_type: None, ..fit[i] } by {
            assert(cs[i] == cluster_chunk(m, raw, max_tokens, fit, i));
        }
        assert forall|k: int| 0 <= k < 5 implies #[trigger] chunk_names(cs, k) =~= names_in(w, k) by {
            lemma_clusters_share(w, k);
            lemma_fitted_keeps_names(filtered, max_tokens, k);
            assert forall|i: int| 0 <= i < cs.len() implies names_in(held(#[trigger] cs[i]), k) == names_in(fit[i], k) by {
                assert(held(cs[i]) == ItemClusterV { anchor_type: None, ..fit[i] });
            }
            lemma_chunks_follow_clusters(cs, fit, k);
        }
        let k0 = choose|k: int| 0 <= k < 5 && #[trigger] names_in(w, k).len() > 0;
        assert(chunk_names(cs, k0) =~= names_in(w, k0));
        if cs.len() == 0 {
            assert(chunk_names(cs, k0) == Multiset::<Seq<char>>::empty());
        }
    }
}

} // verus!
