//! The navigator: the module graph of a codebase, explored down to a depth.
use vstd::prelude::*;
use crate::dup::views;
use crate::navigation::explorer::Explorer;
use crate::parser::module_graph::{
    ModuleGraph, ParseFailure, ParseFailureV, SourceFile, add_files, first_root, CrateSources,
    root_path_ok, workspace_of, put_module, workspace_root,
};
use crate::parser::paths::path_components;

verus! {

/// Navigates a codebase and hands out explorers of its module graph.
pub struct Navigator {
    module_graph: ModuleGraph,
    max_depth: usize,
    context_window_tokens: usize,
}

impl Navigator {
    pub closed spec fn graph(&self) -> ModuleGraph {
        self.module_graph
    }

    pub closed spec fn depth_limit(&self) -> usize {
        self.max_depth
    }

    pub closed spec fn tokens(&self) -> usize {
        self.context_window_tokens
    }

    /// A navigator over the crate whose root file is `crate_root`, built
    /// from the crate's source files (see `ModuleGraph::from_crate_root`).
    pub fn new(crate_root: &str, files: &Vec<SourceFile>, max_depth: usize, context_window_tokens: usize) -> (res: Result<Navigator, String>)
        requires
            path_components(crate_root@).len() > 0,
            path_components(crate_root@).last() != "/"@,
        ensures
            ({
                let acc = add_files(path_components(crate_root@).drop_last(), None, views(files@));
                match res {
                    Ok(n) => {
                        &&& n.graph().wf()
                        &&& n.graph().module_views() == acc.modules
                        &&& n.graph().source_views() == acc.sources
                        &&& n.graph().failure_views() == acc.failures
                        &&& n.depth_limit() == max_depth
                        &&& n.tokens() == context_window_tokens
                    },
                    Err(msg) => first_root(acc.modules) is None && msg@ == "No root module found"@,
                }
            }),
    {
        match ModuleGraph::from_crate_root(crate_root, files) {
            Ok(g) => Ok(Navigator { module_graph: g, max_depth, context_window_tokens }),
            Err(e) => Err(e),
        }
    }

    /// A navigator over the merged module graph of a workspace's crates
    /// (see `ModuleGraph::from_workspace`); an error when there is none.
    pub fn new_multi_crate(
        codebase_path: &str,
        crates: &Vec<CrateSources>,
        max_depth: usize,
        context_window_tokens: usize,
    ) -> (res: Result<Navigator, String>)
        requires
            forall|i: int| 0 <= i < crates@.len() ==> root_path_ok(#[trigger] crates@[i].root_path@),
        ensures
            crates@.len() == 0 <==> res is Err,
            res matches Err(msg) ==> msg@ == "No crates found under "@ + codebase_path@,
            res matches Ok(n) ==> {
                let w = workspace_of(views(crates@));
                let r = put_module(w.modules, w.sources, workspace_root(w.roots), Seq::empty());
                &&& n.graph().wf()
                &&& n.graph().module_views() == r.0
                &&& n.graph().source_views() == r.1
                &&& n.graph().failure_views() == w.failures
                &&& n.graph().module_views()[n.graph().root_index()] == workspace_root(w.roots)
                &&& n.depth_limit() == max_depth
                &&& n.tokens() == context_window_tokens
            },
    {
        if crates.len() == 0 {
            let mut msg = String::from_str("No crates found under ");
            crate::text::push_str(&mut msg, codebase_path);
            return Err(msg);
        }
        let g = ModuleGraph::from_workspace(crates);
        Ok(Navigator { module_graph: g, max_depth, context_window_tokens })
    }

    /// An explorer of the module graph, with nothing visited yet.
    pub fn explore(&self) -> (res: Explorer<'_>)
        requires
            self.graph().wf(),
        ensures
            res.wf(),
            *res.graph() == self.graph(),
            res.depth_limit() == self.depth_limit(),
            res.tokens() == self.tokens(),
            res.visited_flags() == Seq::new(self.graph().module_views().len(), |i: int| false),
    {
        Explorer::new(&self.module_graph, self.max_depth, self.context_window_tokens)
    }

    /// The number of modules in the graph.
    pub fn module_count(&self) -> (res: usize)
        ensures
            res == self.graph().module_views().len(),
    {
        self.module_graph.module_count()
    }

    /// The files that could not be read or parsed.
    pub fn parse_failures(&self) -> (res: Vec<ParseFailure>)
        ensures
            views(res@) == self.graph().failure_views(),
    {
        self.module_graph.failures()
    }
}

} // verus!
