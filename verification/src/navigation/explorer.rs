//! Top-down exploration of the module graph: breadth first from the root,
//! down to a maximum depth, each module visited once, building the analysis
//! chunks of each module visited.
use vstd::prelude::*;
use crate::dup::views;
use crate::navigation::chunk::{AnalysisChunk, AnalysisChunkV};
use crate::navigation::context::{build_chunks, chunks_of};
use crate::parser::module_graph::{
    ModuleGraph, ModuleV, child_names, has_module, module_pred, names_distinct,
};

verus! {

/// The number of unset flags.
pub open spec fn count_false(v: Seq<bool>) -> nat
    decreases v.len(),
{
    if v.len() == 0 {
        0
    } else {
        count_false(v.drop_last()) + (if v.last() { 0nat } else { 1nat })
    }
}

pub proof fn lemma_count_false_set(v: Seq<bool>, i: int)
    requires
        0 <= i < v.len(),
        !v[i],
    ensures
        count_false(v.update(i, true)) + 1 == count_false(v),
    decreases v.len(),
{
    let u = v.update(i, true);
    if i == v.len() - 1 {
        assert(u.drop_last() =~= v.drop_last());
    } else {
        lemma_count_false_set(v.drop_last(), i);
        assert(u.drop_last() =~= v.drop_last().update(i, true));
    }
}

/// The index of the module with the given name.
pub open spec fn index_of(ms: Seq<ModuleV>, name: Seq<char>) -> int {
    choose|k: int| 0 <= k < ms.len() && ms[k].name == name
}

/// The indices of the modules that module `m` declares.
pub open spec fn children_of(ms: Seq<ModuleV>, m: int) -> Seq<int> {
    child_names(ms[m]).filter(module_pred(ms)).map_values(|n: Seq<char>| index_of(ms, n))
}

/// The modules visited by a breadth-first walk and the visited flags after
/// it. Each queue entry is a module index with its depth; an entry deeper
/// than `max_depth` or of a module already visited is passed over; a module
/// visited above `max_depth` puts its children at the back of the queue.
pub struct Walk {
    pub order: Seq<int>,
    pub visited: Seq<bool>,
}

pub open spec fn bfs(ms: Seq<ModuleV>, queue: Seq<(int, int)>, visited: Seq<bool>, max_depth: int) -> Walk
    decreases count_false(visited), queue.len(),
{
    if queue.len() == 0 {
        Walk { order: Seq::empty(), visited }
    } else {
        let m = queue[0].0;
        let d = queue[0].1;
        let rest = queue.drop_first();
        if d > max_depth || !(0 <= m < visited.len()) || visited[m] {
            bfs(ms, rest, visited, max_depth)
        } else {
            proof {
                lemma_count_false_set(visited, m);
            }
            let kids = if d < max_depth {
                children_of(ms, m).map_values(|c: int| (c, d + 1))
            } else {
                Seq::empty()
            };
            let r = bfs(ms, rest + kids, visited.update(m, true), max_depth);
            Walk { order: seq![m] + r.order, visited: r.visited }
        }
    }
}

/// The chunks of the modules in the given order, one module after another.
pub open spec fn chunks_in_order(ms: Seq<ModuleV>, sources: Seq<Seq<char>>, order: Seq<int>, tokens: nat) -> Seq<AnalysisChunkV>
    decreases order.len(),
{
    if order.len() == 0 {
        Seq::empty()
    } else {
        chunks_in_order(ms, sources, order.drop_last(), tokens) + chunks_of(ms[order.last()], sources[order.last()], tokens)
    }
}

/// Top-down explorer that builds module-level analysis chunks.
pub struct Explorer<'a> {
    module_graph: &'a ModuleGraph,
    max_depth: usize,
    context_window_tokens: usize,
    visited: Vec<bool>,
}

impl<'a> Explorer<'a> {
    /// Which modules have been visited.
    pub closed spec fn visited_flags(&self) -> Seq<bool> {
        self.visited@
    }

    pub closed spec fn graph(&self) -> &'a ModuleGraph {
        self.module_graph
    }

    pub closed spec fn depth_limit(&self) -> usize {
        self.max_depth
    }

    pub closed spec fn tokens(&self) -> usize {
        self.context_window_tokens
    }

    pub closed spec fn wf(&self) -> bool {
        &&& self.module_graph.wf()
        &&& self.visited@.len() == self.module_graph.module_views().len()
    }

    /// An explorer of the graph that has visited nothing yet.
    pub fn new(module_graph: &'a ModuleGraph, max_depth: usize, context_window_tokens: usize) -> (res: Self)
        requires
            module_graph.wf(),
        ensures
            res.wf(),
            res.graph() == module_graph,
            res.depth_limit() == max_depth,
            res.tokens() == context_window_tokens,
            res.visited_flags() == Seq::new(module_graph.module_views().len(), |i: int| false),
    {
        let n = module_graph.module_count();
        let mut visited: Vec<bool> = Vec::new();
        let mut i: usize = 0;
        while i < n
            invariant
                i <= n,
                visited@.len() == i,
                forall|k: int| 0 <= k < i ==> !visited@[k],
            decreases n - i,
        {
            visited.push(false);
            i += 1;
        }
        assert(visited@ =~= Seq::new(module_graph.module_views().len(), |i: int| false));
        Explorer { module_graph, max_depth, context_window_tokens, visited }
    }

    /// The number of modules visited so far.
    pub fn visited_count(&self) -> (res: usize)
        ensures
            res == self.visited_flags().len() - count_false(self.visited_flags()),
    {
        let mut n: usize = 0;
        let mut i: usize = 0;
        while i < self.visited.len()
            invariant
                i <= self.visited@.len(),
                n == i - count_false(self.visited@.take(i as int)),
                count_false(self.visited@.take(i as int)) <= i,
            decreases self.visited@.len() - i,
        {
            proof {
                assert(self.visited@.take(i + 1).drop_last() =~= self.visited@.take(i as int));
            }
            if self.visited[i] {
                n = n + 1;
            }
            i += 1;
        }
        assert(self.visited@.take(self.visited@.len() as int) =~= self.visited@);
        n
    }

    /// Explores the codebase breadth first from the root module and returns
    /// the analysis chunks of each module visited, in the order visited.
    pub fn explore(&mut self) -> (res: Vec<AnalysisChunk>)
        requires
            old(self).wf(),
            old(self).tokens() * 4 <= usize::MAX,
        ensures
            final(self).wf(),
            final(self).graph() == old(self).graph(),
            final(self).depth_limit() == old(self).depth_limit(),
            final(self).tokens() == old(self).tokens(),
            ({
                let g = old(self).graph();
                let w = bfs(g.module_views(), seq![(g.root_index(), 0int)], old(self).visited_flags(), old(self).depth_limit() as int);
                &&& final(self).visited_flags() == w.visited
                &&& views(res@) == chunks_in_order(g.module_views(), g.source_views(), w.order, old(self).tokens() as nat)
            }),
    {
        let g = self.module_graph;
        proof {
            g.lemma_wf();
        }
        let ghost ms = g.module_views();
        let ghost md = self.max_depth as int;
        let ghost tokens = self.context_window_tokens as nat;
        let ghost w0 = bfs(ms, seq![(g.root_index(), 0int)], self.visited@, md);
        let mut results: Vec<AnalysisChunk> = Vec::new();
        let mut queue: Vec<(usize, usize)> = Vec::new();
        let root = g.root_index_exec();
        queue.push((root, 0));
        let ghost mut done: Seq<int> = Seq::empty();
        let mut head: usize = 0;
        proof {
            assert(queue@.skip(0) =~= queue@);
            assert(queue_view(queue@.skip(0)) =~= seq![(g.root_index(), 0int)]);
            assert(done + w0.order =~= w0.order);
        }
        while head < queue.len()
            invariant
                g == self.module_graph,
                g.wf(),
                ms == g.module_views(),
                names_distinct(ms),
                self.visited@.len() == ms.len(),
                md == self.max_depth as int,
                tokens == self.context_window_tokens as nat,
                self.context_window_tokens * 4 <= usize::MAX,
                head <= queue@.len(),
                forall|k: int| 0 <= k < queue@.len() ==> (#[trigger] queue@[k]).0 < ms.len(),
                forall|k: int| 0 <= k < queue@.len() ==> (#[trigger] queue@[k]).1 <= md,
                ({
                    let w = bfs(ms, queue_view(queue@.skip(head as int)), self.visited@, md);
                    &&& done + w.order == w0.order
                    &&& w.visited == w0.visited
                }),
                views(results@) == chunks_in_order(ms, g.source_views(), done, tokens),
                forall|k: int| 0 <= k < done.len() ==> 0 <= #[trigger] done[k] < ms.len(),
            decreases count_false(self.visited@), queue@.len() - head,
        {
            let (m, d) = queue[head];
            let ghost q = queue_view(queue@.skip(head as int));
            proof {
                assert(q[0] == (m as int, d as int));
                assert(queue_view(queue@.skip(head + 1)) =~= q.drop_first());
            }
            head += 1;
            if d > self.max_depth || self.visited[m] {
                continue;
            }
            let ghost old_visited = self.visited@;
            self.visited.set(m, true);
            proof {
                lemma_count_false_set(old_visited, m as int);
            }
            let module = &g.modules()[m];
            proof {
                assert(module@ == ms[m as int]);
            }
            let mut chunks = build_chunks(module, g.source_at(m).as_str(), self.context_window_tokens);
            let ghost before = results@;
            results.append(&mut chunks);
            proof {
                assert(views(results@) =~= views(before) + chunks_of(ms[m as int], g.source_views()[m as int], tokens));
                assert((done.push(m as int)).drop_last() =~= done);
                assert((done.push(m as int)).last() == m as int);
            }
            let ghost qlen = queue@.len();
            let ghost tail = queue_view(queue@.skip(head as int));
            if d < self.max_depth {
                let kids = g.child_indices(m);
                let mut k: usize = 0;
                while k < kids.len()
                    invariant
                        g.wf(),
                        ms == g.module_views(),
                        head <= qlen <= queue@.len(),
                        queue@.len() == qlen + k,
                        k <= kids@.len(),
                        d < md,
                        md <= usize::MAX,
                        forall|j: int| 0 <= j < kids@.len() ==> (#[trigger] kids@[j]) < ms.len(),
                        forall|j: int| 0 <= j < queue@.len() ==> (#[trigger] queue@[j]).0 < ms.len(),
                        forall|j: int| 0 <= j < queue@.len() ==> (#[trigger] queue@[j]).1 <= md,
                        queue_view(queue@.skip(head as int)) == tail + kids@.take(k as int).map_values(|c: usize| (c as int, d + 1)),
                    decreases kids@.len() - k,
                {
                    let ghost before_q = queue@;
                    queue.push((kids[k], d + 1));
                    proof {
                        assert(queue@.skip(head as int) =~= before_q.skip(head as int).push((kids@[k as int], (d + 1) as usize)));
                        assert(kids@.take(k + 1).map_values(|c: usize| (c as int, d + 1))
                            =~= kids@.take(k as int).map_values(|c: usize| (c as int, d + 1)).push((kids@[k as int] as int, d + 1)));
                        assert(queue_view(queue@.skip(head as int)) =~= queue_view(before_q.skip(head as int)).push((kids@[k as int] as int, d + 1)));
                    }
                    k += 1;
                }
                proof {
                    assert(kids@.take(kids@.len() as int) =~= kids@);
                    lemma_children(g, m as int, kids@);
                    assert(kids@.map_values(|c: usize| (c as int, d + 1)) =~= children_of(ms, m as int).map_values(|c: int| (c, d + 1)));
                }
            } else {
                proof {
                    assert(queue_view(queue@.skip(head as int)) =~= tail + Seq::<(int, int)>::empty());
                }
            }
            proof {
                done = done.push(m as int);
            }
        }
        proof {
            assert(queue_view(queue@.skip(head as int)) =~= Seq::<(int, int)>::empty());
            assert(done + Seq::<int>::empty() =~= done);
        }
        results
    }
}

/// A queue of module indices and depths, as integers.
pub open spec fn queue_view(q: Seq<(usize, usize)>) -> Seq<(int, int)> {
    q.map_values(|e: (usize, usize)| (e.0 as int, e.1 as int))
}

proof fn lemma_children(g: &ModuleGraph, m: int, kids: Seq<usize>)
    requires
        g.wf(),
        0 <= m < g.module_views().len(),
        kids.len() == child_names(g.module_views()[m]).filter(module_pred(g.module_views())).len(),
        forall|j: int| 0 <= j < kids.len() ==> (#[trigger] kids[j]) < g.module_views().len(),
        forall|j: int| 0 <= j < kids.len() ==> g.module_views()[#[trigger] kids[j] as int].name
            == child_names(g.module_views()[m]).filter(module_pred(g.module_views()))[j],
    ensures
        kids.map_values(|c: usize| c as int) == children_of(g.module_views(), m),
{
    g.lemma_wf();
    let ms = g.module_views();
    let names = child_names(ms[m]).filter(module_pred(ms));
    assert forall|j: int| 0 <= j < kids.len() implies kids[j] as int == index_of(ms, #[trigger] names[j]) by {
        let c = kids[j] as int;
        assert(ms[c].name == names[j]);
        let k = index_of(ms, names[j]);
        assert(0 <= k < ms.len() && ms[k].name == names[j]);
        if k != c {
            if k < c {
                assert(ms[k].name != ms[c].name);
            } else {
                assert(ms[c].name != ms[k].name);
            }
        }
    }
    assert(kids.map_values(|c: usize| c as int) =~= children_of(ms, m));
}

/// A breadth-first walk visits only modules not visited before, each at
/// most once, and the flags after it are those before it with the visited
/// modules set; the unset flags drop by the number of modules visited.
pub proof fn law_walk_visits_once(ms: Seq<ModuleV>, queue: Seq<(int, int)>, visited: Seq<bool>, max_depth: int)
    ensures
        ({
            let w = bfs(ms, queue, visited, max_depth);
            &&& w.visited.len() == visited.len()
            &&& forall|i: int| 0 <= i < w.order.len() ==> 0 <= #[trigger] w.order[i] < visited.len() && !visited[w.order[i]]
            &&& forall|i: int, j: int| 0 <= i < j < w.order.len() ==> w.order[i] != w.order[j]
            &&& forall|k: int| 0 <= k < visited.len() ==> (#[trigger] w.visited[k] <==> (visited[k] || w.order.contains(k)))
            &&& count_false(w.visited) + w.order.len() == count_false(visited)
        }),
    decreases count_false(visited), queue.len(),
{
    if queue.len() > 0 {
        let m = queue[0].0;
        let d = queue[0].1;
        let rest = queue.drop_first();
        if d > max_depth || !(0 <= m < visited.len()) || visited[m] {
            law_walk_visits_once(ms, rest, visited, max_depth);
        } else {
            lemma_count_false_set(visited, m);
            let kids = if d < max_depth {
                children_of(ms, m).map_values(|c: int| (c, d + 1))
            } else {
                Seq::empty()
            };
            let v2 = visited.update(m, true);
            law_walk_visits_once(ms, rest + kids, v2, max_depth);
            let r = bfs(ms, rest + kids, v2, max_depth);
            let w = bfs(ms, queue, visited, max_depth);
            assert(w.order == seq![m] + r.order);
            assert(w.visited == r.visited);
            assert forall|i: int| 0 <= i < w.order.len() implies 0 <= #[trigger] w.order[i] < visited.len() && !visited[w.order[i]] by {
                if i > 0 {
                    assert(w.order[i] == r.order[i - 1]);
                }
            }
            assert forall|i: int, j: int| 0 <= i < j < w.order.len() implies w.order[i] != w.order[j] by {
                assert(w.order[j] == r.order[j - 1]);
                if i > 0 {
                    assert(w.order[i] == r.order[i - 1]);
                } else {
                    assert(!v2[r.order[j - 1]]);
                }
            }
            assert forall|k: int| 0 <= k < visited.len() implies (#[trigger] w.visited[k] <==> (visited[k] || w.order.contains(k))) by {
                if r.order.contains(k) {
                    let i = choose|i: int| 0 <= i < r.order.len() && r.order[i] == k;
                    assert(w.order[i + 1] == k);
                }
                if w.order.contains(k) && k != m {
                    let i = choose|i: int| 0 <= i < w.order.len() && w.order[i] == k;
                    assert(r.order[i - 1] == k);
                }
                assert(w.order[0] == m);
            }
        }
    }
}

/// Exploring with a fresh explorer visits the root first and each module at
/// most once, the number of modules visited is the number of set flags, and
/// a second exploration from there visits nothing.
pub proof fn law_explore_once(g: &ModuleGraph, max_depth: usize)
    requires
        g.wf(),
    ensures
        ({
            let ms = g.module_views();
            let fresh = Seq::new(ms.len(), |i: int| false);
            let w = bfs(ms, seq![(g.root_index(), 0int)], fresh, max_depth as int);
            &&& w.order.len() >= 1 && w.order[0] == g.root_index()
            &&& forall|i: int, j: int| 0 <= i < j < w.order.len() ==> w.order[i] != w.order[j]
            &&& w.order.len() == w.visited.len() - count_false(w.visited)
            &&& bfs(ms, seq![(g.root_index(), 0int)], w.visited, max_depth as int).order.len() == 0
        }),
{
    g.lemma_wf();
    let ms = g.module_views();
    let fresh = Seq::new(ms.len(), |i: int| false);
    let q = seq![(g.root_index(), 0int)];
    let w = bfs(ms, q, fresh, max_depth as int);
    law_walk_visits_once(ms, q, fresh, max_depth as int);
    lemma_count_false_all(fresh);
    let root = g.root_index();
    lemma_count_false_set(fresh, root);
    let kids = if 0 < max_depth as int {
        children_of(ms, root).map_values(|c: int| (c, 0int + 1))
    } else {
        Seq::empty()
    };
    assert(q.drop_first() + kids =~= kids);
    let r = bfs(ms, q.drop_first() + kids, fresh.update(root, true), max_depth as int);
    assert(w.order == seq![root] + r.order);
    assert(w.order[0] == root);
    assert(w.order.contains(root));
    assert(w.visited[root]);
    assert(q.drop_first().len() == 0);
    assert(bfs(ms, q, w.visited, max_depth as int) == bfs(ms, q.drop_first(), w.visited, max_depth as int));
}

/// With no flag set, every flag counts.
proof fn lemma_count_false_all(v: Seq<bool>)
    requires
        forall|i: int| 0 <= i < v.len() ==> !v[i],
    ensures
        count_false(v) == v.len(),
    decreases v.len(),
{
    if v.len() > 0 {
        lemma_count_false_all(v.drop_last());
    }
}

/// Module `m` can be reached from module `from` in at most `d` steps from a
/// module to one that it declares.
pub open spec fn reachable(ms: Seq<ModuleV>, from: int, m: int, d: nat) -> bool
    decreases d,
{
    m == from || (d > 0 && exists|p: int| #[trigger] children_of(ms, p).contains(m) && reachable(ms, from, p, (d - 1) as nat))
}

proof fn lemma_reachable_mono(ms: Seq<ModuleV>, from: int, m: int, d: nat, e: nat)
    requires
        reachable(ms, from, m, d),
        d <= e,
    ensures
        reachable(ms, from, m, e),
    decreases e,
{
    if m != from && d < e {
        let p = choose|p: int| #[trigger] children_of(ms, p).contains(m) && reachable(ms, from, p, (d - 1) as nat);
        lemma_reachable_mono(ms, from, p, (d - 1) as nat, (e - 1) as nat);
    }
}

/// A walk whose queue holds only modules reachable within their depth
/// visits each module at a depth within which it is reachable.
proof fn lemma_walk_reaches(ms: Seq<ModuleV>, from: int, queue: Seq<(int, int)>, visited: Seq<bool>, max_depth: int)
    requires
        forall|i: int| 0 <= i < queue.len() ==> 0 <= (#[trigger] queue[i]).1 && reachable(ms, from, queue[i].0, queue[i].1 as nat),
    ensures
        bfs_depths(ms, queue, visited, max_depth).len() == bfs(ms, queue, visited, max_depth).order.len(),
        forall|i: int| 0 <= i < bfs(ms, queue, visited, max_depth).order.len() ==> reachable(
            ms,
            from,
            #[trigger] bfs(ms, queue, visited, max_depth).order[i],
            bfs_depths(ms, queue, visited, max_depth)[i] as nat,
        ),
    decreases count_false(visited), queue.len(),
{
    if queue.len() > 0 {
        let m = queue[0].0;
        let d = queue[0].1;
        let rest = queue.drop_first();
        assert forall|i: int| 0 <= i < rest.len() implies 0 <= (#[trigger] rest[i]).1 && reachable(ms, from, rest[i].0, rest[i].1 as nat) by {
            assert(rest[i] == queue[i + 1]);
        }
        if d > max_depth || !(0 <= m < visited.len()) || visited[m] {
            lemma_walk_reaches(ms, from, rest, visited, max_depth);
            let w = bfs(ms, queue, visited, max_depth);
            let ds = bfs_depths(ms, queue, visited, max_depth);
            let r = bfs(ms, rest, visited, max_depth);
            let rds = bfs_depths(ms, rest, visited, max_depth);
            assert(w == r);
            assert(ds == rds);
            assert forall|i: int| 0 <= i < w.order.len() implies reachable(ms, from, #[trigger] w.order[i], ds[i] as nat) by {
                assert(r.order[i] == w.order[i]);
            }
        } else {
            lemma_count_false_set(visited, m);
            let kids = if d < max_depth {
                children_of(ms, m).map_values(|c: int| (c, d + 1))
            } else {
                Seq::empty()
            };
            let q2 = rest + kids;
            assert forall|i: int| 0 <= i < q2.len() implies 0 <= (#[trigger] q2[i]).1 && reachable(ms, from, q2[i].0, q2[i].1 as nat) by {
                if i < rest.len() {
                    assert(q2[i] == rest[i]);
                } else {
                    let j = i - rest.len();
                    assert(q2[i] == kids[j]);
                    assert(children_of(ms, m)[j] == q2[i].0);
                    assert(children_of(ms, m).contains(q2[i].0));
                    assert(q2[i].1 == d + 1);
                    assert(((d + 1) as nat - 1) as nat == d as nat);
                }
            }
            lemma_walk_reaches(ms, from, q2, visited.update(m, true), max_depth);
            let r = bfs(ms, q2, visited.update(m, true), max_depth);
            let rds = bfs_depths(ms, q2, visited.update(m, true), max_depth);
            let w = bfs(ms, queue, visited, max_depth);
            let ds = bfs_depths(ms, queue, visited, max_depth);
            assert(w.order == seq![m] + r.order);
            assert(ds == seq![d] + rds);
            assert forall|i: int| 0 <= i < w.order.len() implies reachable(ms, from, #[trigger] w.order[i], ds[i] as nat) by {
                if i > 0 {
                    assert(w.order[i] == r.order[i - 1] && ds[i] == rds[i - 1]);
                }
            }
        }
    }
}

/// Exploring visits only modules that the root reaches within the depth
/// limit.
pub proof fn law_explore_reaches(g: &ModuleGraph, visited: Seq<bool>, max_depth: usize)
    ensures
        ({
            let w = bfs(g.module_views(), seq![(g.root_index(), 0int)], visited, max_depth as int);
            forall|i: int| 0 <= i < w.order.len() ==> reachable(g.module_views(), g.root_index(), #[trigger] w.order[i], max_depth as nat)
        }),
{
    let ms = g.module_views();
    let q = seq![(g.root_index(), 0int)];
    let md = max_depth as int;
    assert(reachable(ms, g.root_index(), q[0].0, q[0].1 as nat));
    lemma_walk_reaches(ms, g.root_index(), q, visited, md);
    lemma_walk_levels(ms, q, visited, md);
    let w = bfs(ms, q, visited, md);
    let ds = bfs_depths(ms, q, visited, md);
    assert forall|i: int| 0 <= i < w.order.len() implies reachable(ms, g.root_index(), #[trigger] w.order[i], max_depth as nat) by {
        assert(reachable(ms, g.root_index(), w.order[i], ds[i] as nat));
        assert(ds[i] <= md);
        lemma_reachable_mono(ms, g.root_index(), w.order[i], ds[i] as nat, max_depth as nat);
    }
}

// ---------------------------------------------------------------------------
// The walk is breadth first
// ---------------------------------------------------------------------------

/// The depth at which each module of a walk is visited, in the order
/// visited.
pub open spec fn bfs_depths(ms: Seq<ModuleV>, queue: Seq<(int, int)>, visited: Seq<bool>, max_depth: int) -> Seq<int>
    decreases count_false(visited), queue.len(),
{
    if queue.len() == 0 {
        Seq::empty()
    } else {
        let m = queue[0].0;
        let d = queue[0].1;
        let rest = queue.drop_first();
        if d > max_depth || !(0 <= m < visited.len()) || visited[m] {
            bfs_depths(ms, rest, visited, max_depth)
        } else {
            proof {
                lemma_count_false_set(visited, m);
            }
            let kids = if d < max_depth {
                children_of(ms, m).map_values(|c: int| (c, d + 1))
            } else {
                Seq::empty()
            };
            seq![d] + bfs_depths(ms, rest + kids, visited.update(m, true), max_depth)
        }
    }
}

/// The depths of a queue do not go down, and the last is at most one more
/// than the first.
pub open spec fn level_ordered(q: Seq<(int, int)>) -> bool {
    &&& forall|i: int, j: int| 0 <= i <= j < q.len() ==> (#[trigger] q[i]).1 <= (#[trigger] q[j]).1
    &&& q.len() > 0 ==> q[q.len() - 1].1 <= q[0].1 + 1
}

/// Module `c` is visited at a depth of at most `e`.
pub open spec fn seen_within(order: Seq<int>, ds: Seq<int>, c: int, e: int) -> bool {
    exists|i: int| 0 <= i < order.len() && #[trigger] order[i] == c && ds[i] <= e
}

/// The modules that a module declares are modules of the graph.
proof fn lemma_children_in_range(ms: Seq<ModuleV>, x: int, c: int)
    requires
        children_of(ms, x).contains(c),
    ensures
        0 <= c < ms.len(),
{
    let f = child_names(ms[x]).filter(module_pred(ms));
    let j = choose|j: int| 0 <= j < children_of(ms, x).len() && children_of(ms, x)[j] == c;
    assert(children_of(ms, x).len() == f.len());
    child_names(ms[x]).lemma_filter_pred(module_pred(ms), j);
    assert(has_module(ms, f[j]));
    assert(c == index_of(ms, f[j]));
}

/// A module reached from a module of the graph is a module of the graph.
proof fn lemma_reach_in_range(ms: Seq<ModuleV>, from: int, m: int, d: nat)
    requires
        reachable(ms, from, m, d),
        0 <= from < ms.len(),
    ensures
        0 <= m < ms.len(),
{
    if m != from {
        let p = choose|p: int| #[trigger] children_of(ms, p).contains(m) && reachable(ms, from, p, (d - 1) as nat);
        lemma_children_in_range(ms, p, m);
    }
}

/// What a walk from a level-ordered queue does: it visits at depths that
/// do not go down, none below the queue's first nor above the limit; every
/// entry of the queue within the limit ends up visited at most at its depth
/// (or was visited before); and the modules declared by a module visited
/// below the limit are visited at most one level deeper (or were before).
proof fn lemma_walk_levels(ms: Seq<ModuleV>, q: Seq<(int, int)>, v: Seq<bool>, md: int)
    requires
        level_ordered(q),
    ensures
        ({
            let w = bfs(ms, q, v, md);
            let ds = bfs_depths(ms, q, v, md);
            &&& ds.len() == w.order.len()
            &&& forall|i: int, j: int| 0 <= i <= j < ds.len() ==> #[trigger] ds[i] <= #[trigger] ds[j]
            &&& forall|i: int| 0 <= i < ds.len() ==> q[0].1 <= #[trigger] ds[i] <= md
            &&& forall|j: int| 0 <= j < q.len() && 0 <= (#[trigger] q[j]).0 < v.len() && q[j].1 <= md ==> v[q[j].0]
                || seen_within(w.order, ds, q[j].0, q[j].1)
            &&& forall|i: int, c: int| 0 <= i < ds.len() && ds[i] < md && #[trigger] children_of(ms, w.order[i]).contains(c)
                && 0 <= c < v.len() ==> v[c] || seen_within(w.order, ds, c, ds[i] + 1)
        }),
    decreases count_false(v), q.len(),
{
    let w = bfs(ms, q, v, md);
    let ds = bfs_depths(ms, q, v, md);
    if q.len() > 0 {
        let m = q[0].0;
        let d = q[0].1;
        let rest = q.drop_first();
        assert forall|i: int, j: int| 0 <= i <= j < rest.len() implies (#[trigger] rest[i]).1 <= (#[trigger] rest[j]).1 by {
            assert(rest[i] == q[i + 1] && rest[j] == q[j + 1]);
        }
        if rest.len() > 0 {
            assert(rest[rest.len() - 1] == q[q.len() - 1]);
            assert(rest[0] == q[1]);
            assert(q[0].1 <= q[1].1);
        }
        if d > md || !(0 <= m < v.len()) || v[m] {
            lemma_walk_levels(ms, rest, v, md);
            assert(w == bfs(ms, rest, v, md));
            assert(ds == bfs_depths(ms, rest, v, md));
            assert forall|i: int| 0 <= i < ds.len() implies q[0].1 <= #[trigger] ds[i] <= md by {
                assert(q[0].1 <= rest[0].1);
            }
            assert forall|j: int| 0 <= j < q.len() && 0 <= (#[trigger] q[j]).0 < v.len() && q[j].1 <= md implies v[q[j].0]
                || seen_within(w.order, ds, q[j].0, q[j].1) by {
                if j > 0 {
                    assert(q[j] == rest[j - 1]);
                }
            }
        } else {
            lemma_count_false_set(v, m);
            let kids = if d < md {
                children_of(ms, m).map_values(|c: int| (c, d + 1))
            } else {
                Seq::empty()
            };
            let q2 = rest + kids;
            let v2 = v.update(m, true);
            assert forall|i: int, j: int| 0 <= i <= j < q2.len() implies (#[trigger] q2[i]).1 <= (#[trigger] q2[j]).1 by {
                if j < rest.len() {
                    assert(q2[i] == rest[i] && q2[j] == rest[j]);
                } else if i < rest.len() {
                    assert(q2[i] == rest[i] && q2[j] == kids[j - rest.len()]);
                    assert(rest[i] == q[i + 1]);
                    assert(q[i + 1].1 <= q[q.len() - 1].1);
                } else {
                    assert(q2[i] == kids[i - rest.len()] && q2[j] == kids[j - rest.len()]);
                }
            }
            if q2.len() > 0 {
                if kids.len() > 0 {
                    assert(q2[q2.len() - 1] == kids[kids.len() - 1]);
                    if rest.len() > 0 {
                        assert(q2[0] == rest[0]);
                        assert(rest[0] == q[1]);
                        assert(q[0].1 <= q[1].1);
                    } else {
                        assert(q2[0] == kids[0]);
                    }
                } else {
                    assert(q2 =~= rest);
                    assert(rest[0] == q[1]);
                    assert(q[0].1 <= q[1].1);
                }
            }
            lemma_walk_levels(ms, q2, v2, md);
            let r = bfs(ms, q2, v2, md);
            let rds = bfs_depths(ms, q2, v2, md);
            assert(w.order == seq![m] + r.order);
            assert(ds == seq![d] + rds);
            if q2.len() > 0 {
                if rest.len() > 0 {
                    assert(q2[0] == rest[0]);
                    assert(rest[0] == q[1]);
                    assert(q[0].1 <= q[1].1);
                } else {
                    assert(q2[0] == kids[0]);
                }
            }
            assert forall|i: int, j: int| 0 <= i <= j < ds.len() implies #[trigger] ds[i] <= #[trigger] ds[j] by {
                if i > 0 {
                    assert(ds[i] == rds[i - 1] && ds[j] == rds[j - 1]);
                } else if j > 0 {
                    assert(ds[j] == rds[j - 1]);
                }
            }
            assert forall|i: int| 0 <= i < ds.len() implies q[0].1 <= #[trigger] ds[i] <= md by {
                if i > 0 {
                    assert(ds[i] == rds[i - 1]);
                }
            }
            // Every entry of the queue is visited within its depth.
            assert forall|j: int| 0 <= j < q.len() && 0 <= (#[trigger] q[j]).0 < v.len() && q[j].1 <= md implies v[q[j].0]
                || seen_within(w.order, ds, q[j].0, q[j].1) by {
                if j == 0 {
                    assert(w.order[0] == m && ds[0] == d);
                } else {
                    assert(q[j] == rest[j - 1]);
                    assert(q2[j - 1] == rest[j - 1]);
                    assert(q[0].1 <= q[j].1);
                    if q[j].0 == m {
                        assert(w.order[0] == m && ds[0] == d);
                    } else if !v[q[j].0] {
                        assert(seen_within(r.order, rds, q2[j - 1].0, q2[j - 1].1));
                        let i2 = choose|i2: int| 0 <= i2 < r.order.len() && #[trigger] r.order[i2] == q2[j - 1].0 && rds[i2] <= q2[j - 1].1;
                        assert(w.order[i2 + 1] == r.order[i2] && ds[i2 + 1] == rds[i2]);
                    }
                }
            }
            // The modules a visited module declares are visited one level on.
            assert forall|i: int, c: int| 0 <= i < ds.len() && ds[i] < md && #[trigger] children_of(ms, w.order[i]).contains(c)
                && 0 <= c < v.len() implies v[c] || seen_within(w.order, ds, c, ds[i] + 1) by {
                if c == m {
                    assert(w.order[0] == m);
                    assert(ds[0] <= ds[i]);
                } else if !v[c] {
                    if i == 0 {
                        assert(w.order[0] == m && ds[0] == d);
                        let jj = choose|jj: int| 0 <= jj < children_of(ms, m).len() && children_of(ms, m)[jj] == c;
                        assert(kids[jj] == (c, d + 1));
                        assert(q2[rest.len() + jj] == kids[jj]);
                        assert(v2[c] == v[c]);
                        assert(seen_within(r.order, rds, q2[rest.len() + jj].0, q2[rest.len() + jj].1));
                        let i2 = choose|i2: int| 0 <= i2 < r.order.len() && #[trigger] r.order[i2] == c && rds[i2] <= d + 1;
                        assert(w.order[i2 + 1] == r.order[i2] && ds[i2 + 1] == rds[i2]);
                    } else {
                        assert(w.order[i] == r.order[i - 1] && ds[i] == rds[i - 1]);
                        assert(children_of(ms, r.order[i - 1]).contains(c));
                        assert(v2[c] == v[c]);
                        assert(seen_within(r.order, rds, c, rds[i - 1] + 1));
                        let i2 = choose|i2: int| 0 <= i2 < r.order.len() && #[trigger] r.order[i2] == c && rds[i2] <= rds[i - 1] + 1;
                        assert(w.order[i2 + 1] == r.order[i2] && ds[i2 + 1] == rds[i2]);
                    }
                }
            }
        }
    }
}

/// Walking from the root with nothing visited, every module that the root
/// reaches in at most `k` steps, `k` within the limit, is visited at a depth
/// of at most `k`.
proof fn lemma_walk_complete(g: &ModuleGraph, md: int, k: nat)
    requires
        g.wf(),
        k <= md,
    ensures
        ({
            let ms = g.module_views();
            let q = seq![(g.root_index(), 0int)];
            let fresh = Seq::new(ms.len(), |i: int| false);
            forall|m: int| #[trigger] reachable(ms, g.root_index(), m, k) ==> seen_within(
                bfs(ms, q, fresh, md).order,
                bfs_depths(ms, q, fresh, md),
                m,
                k as int,
            )
        }),
    decreases k,
{
    g.lemma_wf();
    let ms = g.module_views();
    let root = g.root_index();
    let q = seq![(root, 0int)];
    let fresh = Seq::new(ms.len(), |i: int| false);
    let w = bfs(ms, q, fresh, md);
    let ds = bfs_depths(ms, q, fresh, md);
    lemma_walk_levels(ms, q, fresh, md);
    assert forall|m: int| #[trigger] reachable(ms, root, m, k) implies seen_within(w.order, ds, m, k as int) by {
        lemma_reach_in_range(ms, root, m, k);
        if m == root {
            assert(q[0].0 == root && q[0].1 == 0);
            assert(seen_within(w.order, ds, q[0].0, q[0].1));
            let i = choose|i: int| 0 <= i < w.order.len() && #[trigger] w.order[i] == root && ds[i] <= 0;
            assert(w.order[i] == m && ds[i] <= k);
        } else {
            let p = choose|p: int| #[trigger] children_of(ms, p).contains(m) && reachable(ms, root, p, (k - 1) as nat);
            lemma_walk_complete(g, md, (k - 1) as nat);
            assert(seen_within(w.order, ds, p, (k - 1) as nat as int));
            let i = choose|i: int| 0 <= i < w.order.len() && #[trigger] w.order[i] == p && ds[i] <= (k - 1) as nat as int;
            assert(children_of(ms, w.order[i]).contains(m));
            assert(seen_within(w.order, ds, m, ds[i] + 1));
            let i2 = choose|i2: int| 0 <= i2 < w.order.len() && #[trigger] w.order[i2] == m && ds[i2] <= ds[i] + 1;
            assert(ds[i2] <= k);
        }
    }
}

/// Exploring with a fresh explorer is breadth first: it visits exactly the
/// modules that the root reaches within the depth limit (each once, see
/// `law_explore_once`), and in order of distance: a module visited later is
/// reached in no fewer steps than one visited earlier.
pub proof fn law_explore_bfs(g: &ModuleGraph, max_depth: usize)
    requires
        g.wf(),
    ensures
        ({
            let ms = g.module_views();
            let root = g.root_index();
            let fresh = Seq::new(ms.len(), |i: int| false);
            let w = bfs(ms, seq![(root, 0int)], fresh, max_depth as int);
            &&& forall|m: int| 0 <= m < ms.len() ==> (w.order.contains(m) <==> #[trigger] reachable(ms, root, m, max_depth as nat))
            &&& forall|i: int, j: int, k: nat| 0 <= i < j < w.order.len() && #[trigger] reachable(ms, root, w.order[j], k)
                ==> #[trigger] reachable(ms, root, w.order[i], k)
        }),
{
    g.lemma_wf();
    let ms = g.module_views();
    let root = g.root_index();
    let q = seq![(root, 0int)];
    let md = max_depth as int;
    let fresh = Seq::new(ms.len(), |i: int| false);
    let w = bfs(ms, q, fresh, md);
    let ds = bfs_depths(ms, q, fresh, md);
    law_explore_reaches(g, fresh, max_depth);
    law_walk_visits_once(ms, q, fresh, md);
    lemma_walk_levels(ms, q, fresh, md);
    assert(reachable(ms, root, q[0].0, q[0].1 as nat));
    lemma_walk_reaches(ms, root, q, fresh, md);
    lemma_walk_complete(g, md, max_depth as nat);
    assert forall|m: int| 0 <= m < ms.len() implies (w.order.contains(m) <==> #[trigger] reachable(ms, root, m, max_depth as nat)) by {
        if w.order.contains(m) {
            let i = choose|i: int| 0 <= i < w.order.len() && w.order[i] == m;
            assert(reachable(ms, root, w.order[i], max_depth as nat));
        }
        if reachable(ms, root, m, max_depth as nat) {
            assert(seen_within(w.order, ds, m, md));
            let i = choose|i: int| 0 <= i < w.order.len() && #[trigger] w.order[i] == m && ds[i] <= md;
            assert(w.order[i] == m);
        }
    }
    assert forall|i: int, j: int, k: nat| 0 <= i < j < w.order.len() && #[trigger] reachable(ms, root, w.order[j], k)
        implies #[trigger] reachable(ms, root, w.order[i], k) by {
        assert(reachable(ms, root, w.order[i], ds[i] as nat));
        assert(0 <= ds[i] <= ds[j] <= md);
        if k <= md {
            lemma_walk_complete(g, md, k);
            assert(seen_within(w.order, ds, w.order[j], k as int));
            let i2 = choose|i2: int| 0 <= i2 < w.order.len() && #[trigger] w.order[i2] == w.order[j] && ds[i2] <= k;
            if i2 != j {
                if i2 < j {
                    assert(w.order[i2] != w.order[j]);
                } else {
                    assert(w.order[j] != w.order[i2]);
                }
            }
            lemma_reachable_mono(ms, root, w.order[i], ds[i] as nat, k);
        } else {
            lemma_reachable_mono(ms, root, w.order[i], ds[i] as nat, k);
        }
    }
}

} // verus!
