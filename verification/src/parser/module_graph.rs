//! The module graph of a crate: one module per source file, named after its
//! path, with its code items and the names of the submodules it declares.
//!
//! The files are handed in with their contents (or the error met reading
//! them); the graph is built from them alone.
use vstd::prelude::*;
use crate::dup::{Dup, views, dup_vec, dup_strings};
use crate::parser::ast::{CodeItem, CodeItemV};
use crate::parser::paths::{
    components, is_segment, module_name_in, module_name_under, path_components,
};
use crate::parser::recovery::{parse_file_tolerant, parsed_tolerantly, result_view};
use crate::text::{
    is_ws, seq_contains, seq_ends_with, seq_find, seq_lines, seq_starts_with, seq_trim,
    seq_trim_start, contains_str, contains_string, find, from_chars, lines_of, push_str,
    ends_with_str, slice_range, starts_with_str, str_eq, to_chars, trim, trim_start,
    is_whitespace, lemma_find_from,
};

verus! {

// ---------------------------------------------------------------------------
// Submodule declarations
// ---------------------------------------------------------------------------

/// A line, trimmed, with its visibility (`pub`, `pub(..)`) removed; nothing
/// when `pub(` is not closed.
pub open spec fn after_visibility(t: Seq<char>) -> Option<Seq<char>> {
    if seq_starts_with(t, "pub("@) {
        match seq_find(t, ")"@) {
            Some(i) => Some(seq_trim_start(t.skip(i + 1))),
            None => None,
        }
    } else if seq_starts_with(t, "pub "@) {
        Some(seq_trim_start(t.skip(4)))
    } else {
        Some(t)
    }
}

pub open spec fn is_name_end(c: char) -> bool {
    c == ';' || c == '{' || is_ws(c)
}

/// The text before the first `;`, `{` or whitespace.
pub open spec fn name_prefix(s: Seq<char>) -> Seq<char>
    decreases s.len(),
{
    if s.len() == 0 || is_name_end(s[0]) {
        Seq::empty()
    } else {
        seq![s[0]] + name_prefix(s.skip(1))
    }
}

/// The module that a line declares (`mod foo;`, `pub mod foo {`, ...), if
/// any; comment lines and `tests` modules are left out.
pub open spec fn declared_module(line: Seq<char>) -> Option<Seq<char>> {
    let t = seq_trim(line);
    if seq_starts_with(t, "//"@) || seq_starts_with(t, "/*"@) {
        None
    } else {
        match after_visibility(t) {
            Some(a) => if seq_starts_with(a, "mod "@) {
                let n = name_prefix(a.skip(4));
                if n.len() > 0 && n != "tests"@ {
                    Some(n)
                } else {
                    None
                }
            } else {
                None
            },
            None => None,
        }
    }
}

pub open spec fn declared_modules(ls: Seq<Seq<char>>) -> Seq<Seq<char>>
    decreases ls.len(),
{
    if ls.len() == 0 {
        Seq::empty()
    } else {
        let rest = declared_modules(ls.drop_last());
        match declared_module(ls.last()) {
            Some(n) => rest.push(n),
            None => rest,
        }
    }
}

/// The submodules that a source file declares, in order.
pub open spec fn submodules_of(content: Seq<char>) -> Seq<Seq<char>> {
    declared_modules(seq_lines(content))
}

fn name_prefix_exec(s: &[char]) -> (res: Vec<char>)
    ensures
        res@ == name_prefix(s@),
{
    let mut i: usize = 0;
    proof {
        assert(s@.skip(0) =~= s@);
        assert(s@.take(0) + name_prefix(s@) =~= name_prefix(s@));
    }
    while i < s.len() && !(s[i] == ';' || s[i] == '{' || is_whitespace(s[i]))
        invariant
            i <= s@.len(),
            forall|k: int| 0 <= k < i ==> !is_name_end(s@[k]),
            name_prefix(s@) == s@.take(i as int) + name_prefix(s@.skip(i as int)),
        decreases s@.len() - i,
    {
        proof {
            let t = s@.skip(i as int);
            assert(t.skip(1) =~= s@.skip(i + 1));
            assert(s@.take(i as int) + seq![t[0]] =~= s@.take(i + 1));
            assert(s@.take(i as int) + (seq![t[0]] + name_prefix(t.skip(1))) =~= s@.take(i + 1)
                + name_prefix(s@.skip(i + 1)));
        }
        i += 1;
    }
    proof {
        assert(s@.take(i as int) + Seq::<char>::empty() =~= s@.take(i as int));
    }
    slice_range(s, 0, i)
}

fn declared_module_exec(line: &str) -> (res: Option<String>)
    ensures
        crate::dup::opt_view(res) == declared_module(line@),
{
    let t = trim(to_chars(line).as_slice());
    if starts_with_str(t.as_slice(), "//") || starts_with_str(t.as_slice(), "/*") {
        return None;
    }
    let after: Vec<char>;
    if starts_with_str(t.as_slice(), "pub(") {
        let close: Vec<char> = vec![')'];
        proof {
            reveal_strlit(")");
            assert(close@ =~= ")"@);
        }
        match find(t.as_slice(), close.as_slice()) {
            Some(i) => {
                proof {
                    lemma_find_from(t@, close@, 0);
                }
                assert(i < t@.len() == t.len());
                let rest = slice_range(t.as_slice(), i + 1, t.len());
                assert(rest@ =~= t@.skip(i + 1));
                after = trim_start(rest.as_slice());
            },
            None => {
                return None;
            },
        }
    } else if starts_with_str(t.as_slice(), "pub ") {
        proof {
            reveal_strlit("pub ");
        }
        let rest = slice_range(t.as_slice(), 4, t.len());
        assert(rest@ =~= t@.skip(4));
        after = trim_start(rest.as_slice());
    } else {
        after = t;
    }
    if starts_with_str(after.as_slice(), "mod ") {
        proof {
            reveal_strlit("mod ");
        }
        let rest = slice_range(after.as_slice(), 4, after.len());
        assert(rest@ =~= after@.skip(4));
        let n = name_prefix_exec(rest.as_slice());
        let tests: Vec<char> = vec!['t', 'e', 's', 't', 's'];
        proof {
            reveal_strlit("tests");
            assert(tests@ =~= "tests"@);
        }
        if n.len() > 0 && !crate::text::chars_eq(n.as_slice(), tests.as_slice()) {
            Some(from_chars(n.as_slice()))
        } else {
            None
        }
    } else {
        None
    }
}

/// Finds the module declarations in a source file: `mod foo;`,
/// `pub mod foo;`, `pub(crate) mod foo;`, `mod foo {`, ...; commented-out
/// lines and `tests` modules are skipped.
pub fn find_submodule_declarations(content: &str) -> (res: Vec<String>)
    ensures
        views(res@) == submodules_of(content@),
{
    let lines = lines_of(content);
    let ghost ls = views(lines@);
    let mut out: Vec<String> = Vec::new();
    let mut i: usize = 0;
    while i < lines.len()
        invariant
            i <= lines@.len(),
            ls == views(lines@),
            ls == seq_lines(content@),
            views(out@) == declared_modules(ls.take(i as int)),
        decreases lines@.len() - i,
    {
        proof {
            assert(ls.take(i + 1).drop_last() =~= ls.take(i as int));
            assert(ls.take(i + 1).last() == lines@[i as int]@);
        }
        match declared_module_exec(lines[i].as_str()) {
            Some(n) => {
                let ghost before = views(out@);
                out.push(n);
                proof {
                    assert(views(out@) =~= before.push(n@));
                }
            },
            None => {},
        }
        i += 1;
    }
    proof {
        assert(ls.take(ls.len() as int) =~= ls);
    }
    out
}

// ---------------------------------------------------------------------------
// Modules and the graph
// ---------------------------------------------------------------------------

/// A source file as it was read: its path, and its text or the error met
/// reading it.
pub struct SourceFile {
    pub path: String,
    pub content: Result<String, String>,
}

pub struct SourceFileV {
    pub path: Seq<char>,
    pub content: Result<Seq<char>, Seq<char>>,
}

impl View for SourceFile {
    type V = SourceFileV;

    open spec fn view(&self) -> SourceFileV {
        SourceFileV {
            path: self.path@,
            content: match self.content {
                Ok(c) => Ok(c@),
                Err(e) => Err(e@),
            },
        }
    }
}

#[derive(Debug, Clone)]
pub struct Module {
    pub name: String,
    pub path: String,
    pub items: Vec<CodeItem>,
    pub submodules: Vec<String>,
    pub is_root: bool,
}

pub struct ModuleV {
    pub name: Seq<char>,
    pub path: Seq<char>,
    pub items: Seq<CodeItemV>,
    pub submodules: Seq<Seq<char>>,
    pub is_root: bool,
}

impl View for Module {
    type V = ModuleV;

    open spec fn view(&self) -> ModuleV {
        ModuleV {
            name: self.name@,
            path: self.path@,
            items: views(self.items@),
            submodules: views(self.submodules@),
            is_root: self.is_root,
        }
    }
}

impl Dup for Module {
    fn dup(&self) -> (res: Self) {
        let submodules = dup_strings(&self.submodules);
        proof {
            assert(views(submodules@) =~= views(self.submodules@));
        }
        Module {
            name: self.name.clone(),
            path: self.path.clone(),
            items: dup_vec(&self.items),
            submodules,
            is_root: self.is_root,
        }
    }
}

#[derive(Debug, Clone)]
pub struct ParseFailure {
    pub file_path: String,
    pub error: String,
}

pub struct ParseFailureV {
    pub file_path: Seq<char>,
    pub error: Seq<char>,
}

impl View for ParseFailure {
    type V = ParseFailureV;

    open spec fn view(&self) -> ParseFailureV {
        ParseFailureV { file_path: self.file_path@, error: self.error@ }
    }
}

impl Dup for ParseFailure {
    fn dup(&self) -> (res: Self) {
        ParseFailure { file_path: self.file_path.clone(), error: self.error.clone() }
    }
}

/// The graph under construction: modules with their sources, failures, and
/// the module names met so far.
pub struct GraphAcc {
    pub modules: Seq<ModuleV>,
    pub sources: Seq<Seq<char>>,
    pub failures: Seq<ParseFailureV>,
    pub seen: Seq<Seq<char>>,
}

pub open spec fn empty_acc() -> GraphAcc {
    GraphAcc { modules: Seq::empty(), sources: Seq::empty(), failures: Seq::empty(), seen: Seq::empty() }
}

/// The file has the extension `rs`.
pub open spec fn is_rust_file(path: Seq<char>) -> bool {
    let c = path_components(path);
    c.len() > 0 && c.last().len() >= 4 && seq_ends_with(c.last(), ".rs"@)
}

/// The file is a crate root: `lib.rs` or `main.rs`.
pub open spec fn is_root_file(path: Seq<char>) -> bool {
    let c = path_components(path);
    c.len() > 0 && (c.last() == "lib.rs"@ || c.last() == "main.rs"@)
}

/// The module name with the crate prefix applied: `crate` becomes the
/// prefix, other names are put under it.
pub open spec fn prefixed(prefix: Option<Seq<char>>, name: Seq<char>) -> Seq<char> {
    match prefix {
        Some(p) => if name == "crate"@ {
            p
        } else {
            p + "::"@ + name
        },
        None => name,
    }
}

/// One file added to the graph: files that are not Rust sources, lie under
/// a `target` directory or outside the source directory are passed over, as
/// are module names met before; a file that could not be read is a failure;
/// a file that does not parse is a failure and a module without items.
pub open spec fn add_file(src: Seq<Seq<char>>, prefix: Option<Seq<char>>, acc: GraphAcc, f: SourceFileV) -> GraphAcc {
    if !is_rust_file(f.path) || seq_contains(f.path, "/target/"@) {
        acc
    } else {
        match module_name_under(src, f.path) {
            Err(_) => acc,
            Ok(raw) => {
                let name = prefixed(prefix, raw);
                if acc.seen.contains(name) {
                    acc
                } else {
                    let seen = acc.seen.push(name);
                    match f.content {
                        Err(e) => GraphAcc {
                            failures: acc.failures.push(
                                ParseFailureV { file_path: f.path, error: "read error: "@ + e },
                            ),
                            seen,
                            ..acc
                        },
                        Ok(text) => {
                            let parsed = parsed_tolerantly(f.path, text);
                            let items = match parsed {
                                Ok(items) => items,
                                Err(_) => Seq::empty(),
                            };
                            let failures = match parsed {
                                Ok(_) => acc.failures,
                                Err(e) => acc.failures.push(
                                    ParseFailureV { file_path: f.path, error: e },
                                ),
                            };
                            let m = ModuleV {
                                name,
                                path: f.path,
                                items,
                                submodules: submodules_of(text),
                                is_root: is_root_file(f.path),
                            };
                            GraphAcc {
                                modules: acc.modules.push(m),
                                sources: acc.sources.push(text),
                                failures,
                                seen,
                            }
                        },
                    }
                }
            },
        }
    }
}

pub open spec fn add_files(src: Seq<Seq<char>>, prefix: Option<Seq<char>>, files: Seq<SourceFileV>) -> GraphAcc
    decreases files.len(),
{
    if files.len() == 0 {
        empty_acc()
    } else {
        add_file(src, prefix, add_files(src, prefix, files.drop_last()), files.last())
    }
}

/// The index of the first root module.
pub open spec fn first_root(ms: Seq<ModuleV>) -> Option<int>
    decreases ms.len(),
{
    if ms.len() == 0 {
        None
    } else {
        match first_root(ms.drop_last()) {
            Some(i) => Some(i),
            None => if ms.last().is_root {
                Some(ms.len() - 1)
            } else {
                None
            },
        }
    }
}

/// The sources of one crate of a workspace: its name, its root file, and
/// the source files found for it.
pub struct CrateSources {
    pub name: String,
    pub root_path: String,
    pub files: Vec<SourceFile>,
}

pub struct CrateSourcesV {
    pub name: Seq<char>,
    pub root_path: Seq<char>,
    pub files: Seq<SourceFileV>,
}

impl View for CrateSources {
    type V = CrateSourcesV;

    open spec fn view(&self) -> CrateSourcesV {
        CrateSourcesV { name: self.name@, root_path: self.root_path@, files: views(self.files@) }
    }
}

/// The root file of a crate has a directory.
pub open spec fn root_path_ok(root_path: Seq<char>) -> bool {
    path_components(root_path).len() > 0 && path_components(root_path).last() != "/"@
}

/// The graph of one crate of a workspace, its module names prefixed by the
/// crate's name.
pub open spec fn crate_acc(c: CrateSourcesV) -> GraphAcc {
    add_files(path_components(c.root_path).drop_last(), Some(c.name), c.files)
}

/// The position of the first module named `name`.
pub open spec fn name_index(ms: Seq<ModuleV>, name: Seq<char>) -> Option<int>
    decreases ms.len(),
{
    if ms.len() == 0 {
        None
    } else {
        match name_index(ms.drop_last(), name) {
            Some(k) => Some(k),
            None => if ms.last().name == name {
                Some(ms.len() - 1)
            } else {
                None
            },
        }
    }
}

/// Puts a module (with its source) into the lists, in place of the module
/// of the same name if there is one, else at the end.
pub open spec fn put_module(ms: Seq<ModuleV>, ss: Seq<Seq<char>>, m: ModuleV, s: Seq<char>) -> (Seq<ModuleV>, Seq<Seq<char>>) {
    match name_index(ms, m.name) {
        Some(k) => (ms.update(k, m), ss.update(k, s)),
        None => (ms.push(m), ss.push(s)),
    }
}

/// Puts modules into the lists, one after the other.
pub open spec fn put_modules(
    ms: Seq<ModuleV>,
    ss: Seq<Seq<char>>,
    ns: Seq<ModuleV>,
    nss: Seq<Seq<char>>,
) -> (Seq<ModuleV>, Seq<Seq<char>>)
    decreases ns.len(),
{
    if ns.len() == 0 {
        (ms, ss)
    } else {
        let r = put_modules(ms, ss, ns.drop_last(), nss.drop_last());
        put_module(r.0, r.1, ns.last(), nss[ns.len() - 1])
    }
}

/// The merged graph of the crates of a workspace: the modules of each crate
/// that has a root module (a module replacing an earlier one of the same
/// name), the failures of all, a failure for each crate without a root, and
/// the names of the crates with one.
pub struct WorkspaceAcc {
    pub modules: Seq<ModuleV>,
    pub sources: Seq<Seq<char>>,
    pub failures: Seq<ParseFailureV>,
    pub roots: Seq<Seq<char>>,
}

pub open spec fn workspace_of(cs: Seq<CrateSourcesV>) -> WorkspaceAcc
    decreases cs.len(),
{
    if cs.len() == 0 {
        WorkspaceAcc { modules: Seq::empty(), sources: Seq::empty(), failures: Seq::empty(), roots: Seq::empty() }
    } else {
        let w = workspace_of(cs.drop_last());
        let c = cs.last();
        let g = crate_acc(c);
        match first_root(g.modules) {
            Some(_) => {
                let r = put_modules(w.modules, w.sources, g.modules, g.sources);
                WorkspaceAcc { modules: r.0, sources: r.1, failures: w.failures + g.failures, roots: w.roots.push(c.name) }
            },
            None => WorkspaceAcc {
                failures: w.failures.push(
                    ParseFailureV { file_path: c.root_path, error: "crate parse failed: No root module found"@ },
                ),
                ..w
            },
        }
    }
}

/// The synthetic root of a workspace: it declares the crates.
pub open spec fn workspace_root(roots: Seq<Seq<char>>) -> ModuleV {
    ModuleV { name: "workspace"@, path: Seq::empty(), items: Seq::empty(), submodules: roots, is_root: true }
}

proof fn lemma_name_index(ms: Seq<ModuleV>, name: Seq<char>)
    ensures
        match name_index(ms, name) {
            Some(k) => 0 <= k < ms.len() && ms[k].name == name && forall|j: int| 0 <= j < k ==> ms[j].name != name,
            None => forall|j: int| 0 <= j < ms.len() ==> ms[j].name != name,
        },
    decreases ms.len(),
{
    if ms.len() > 0 {
        let d = ms.drop_last();
        lemma_name_index(d, name);
        assert forall|j: int| 0 <= j < d.len() implies d[j] == ms[j] by {}
    }
}

/// Puts a module (with its source) into the lists, in place of the module
/// of the same name if there is one.
fn put_module_exec(modules: &mut Vec<Module>, sources: &mut Vec<String>, m: Module, s: String)
    requires
        old(modules)@.len() == old(sources)@.len(),
        names_distinct(views(old(modules)@)),
    ensures
        (views(final(modules)@), views(final(sources)@)) == put_module(
            views(old(modules)@),
            views(old(sources)@),
            m@,
            s@,
        ),
        final(modules)@.len() == final(sources)@.len(),
        names_distinct(views(final(modules)@)),
{
    let ghost ms = views(modules@);
    let ghost ss = views(sources@);
    let ghost mv = m@;
    let ghost sv = s@;
    let mut k: usize = 0;
    while k < modules.len() && !str_eq(modules[k].name.as_str(), m.name.as_str())
        invariant
            k <= modules@.len(),
            ms == views(modules@),
            mv == m@,
            forall|j: int| 0 <= j < k ==> (#[trigger] ms[j]).name != mv.name,
        decreases modules@.len() - k,
    {
        assert(ms[k as int] == modules@[k as int]@);
        k += 1;
    }
    proof {
        lemma_name_index(ms, mv.name);
        if k < modules@.len() {
            assert(ms[k as int] == modules@[k as int]@);
        }
    }
    if k < modules.len() {
        proof {
            match name_index(ms, mv.name) {
                Some(k2) => {
                    assert(k2 == k);
                },
                None => {
                    assert(ms[k as int].name == mv.name);
                },
            }
        }
        modules.set(k, m);
        sources.set(k, s);
        proof {
            assert(views(modules@) =~= ms.update(k as int, mv));
            assert(views(sources@) =~= ss.update(k as int, sv));
            assert forall|i: int, j: int| 0 <= i < j < views(modules@).len() implies views(modules@)[i].name
                != views(modules@)[j].name by {
                if i == k {
                    assert(ms[j].name != ms[k as int].name);
                } else if j == k {
                    assert(ms[i].name != ms[k as int].name);
                }
            }
        }
    } else {
        modules.push(m);
        sources.push(s);
        proof {
            assert(views(modules@) =~= ms.push(mv));
            assert(views(sources@) =~= ss.push(sv));
        }
    }
}

/// Adds the modules of a crate's graph to the merged lists, and its
/// failures to the merged failures.
fn absorb_graph(
    g: &ModuleGraph,
    modules: &mut Vec<Module>,
    sources: &mut Vec<String>,
    failures: &mut Vec<ParseFailure>,
)
    requires
        g.wf(),
        old(modules)@.len() == old(sources)@.len(),
        names_distinct(views(old(modules)@)),
    ensures
        (views(final(modules)@), views(final(sources)@)) == put_modules(
            views(old(modules)@),
            views(old(sources)@),
            g.module_views(),
            g.source_views(),
        ),
        views(final(failures)@) == views(old(failures)@) + g.failure_views(),
        final(modules)@.len() == final(sources)@.len(),
        names_distinct(views(final(modules)@)),
{
    let ghost gm = g.module_views();
    let ghost gs = g.source_views();
    let ghost m0 = views(modules@);
    let ghost s0 = views(sources@);
    let n = g.module_count();
    let ms = g.modules();
    let mut k: usize = 0;
    assert(gm.take(0) =~= Seq::<ModuleV>::empty());
    assert(gs.take(0) =~= Seq::<Seq<char>>::empty());
    while k < n
        invariant
            g.wf(),
            gm == g.module_views(),
            gs == g.source_views(),
            views(ms@) == gm,
            n == gm.len(),
            gs.len() == gm.len(),
            k <= n,
            modules@.len() == sources@.len(),
            names_distinct(views(modules@)),
            put_modules(m0, s0, gm.take(k as int), gs.take(k as int)) == (views(modules@), views(sources@)),
        decreases n - k,
    {
        let m = ms[k].dup();
        let src = g.source_at(k).clone();
        proof {
            assert(gm.take(k + 1).drop_last() =~= gm.take(k as int));
            assert(gs.take(k + 1).drop_last() =~= gs.take(k as int));
            assert(gm.take(k + 1).last() == m@);
            assert(gs.take(k + 1)[k as int] == src@);
        }
        put_module_exec(modules, sources, m, src);
        k += 1;
    }
    proof {
        assert(gm.take(n as int) =~= gm);
        assert(gs.take(n as int) =~= gs);
    }
    let ghost f0 = views(failures@);
    let more = g.failures();
    let mut t: usize = 0;
    while t < more.len()
        invariant
            t <= more@.len(),
            views(failures@) == f0 + views(more@).take(t as int),
        decreases more@.len() - t,
    {
        let f = more[t].dup();
        let ghost before = views(failures@);
        failures.push(f);
        proof {
            assert(views(more@).take(t + 1) =~= views(more@).take(t as int).push(more@[t as int]@));
            assert(views(failures@) =~= before.push(more@[t as int]@));
        }
        t += 1;
    }
    proof {
        assert(views(more@).take(more@.len() as int) =~= views(more@));
    }
}

/// The modules of a crate, keyed by their names, with the root module and
/// the files that could not be read or parsed.
pub struct ModuleGraph {
    modules: Vec<Module>,
    sources: Vec<String>,
    root: usize,
    pub parse_failures: Vec<ParseFailure>,
}

/// No two modules have the same name.
pub open spec fn names_distinct(ms: Seq<ModuleV>) -> bool {
    forall|i: int, j: int| 0 <= i < j < ms.len() ==> ms[i].name != ms[j].name
}

impl ModuleGraph {
    /// The modules, in the order their files were met.
    pub closed spec fn module_views(&self) -> Seq<ModuleV> {
        views(self.modules@)
    }

    /// The source text of each module.
    pub closed spec fn source_views(&self) -> Seq<Seq<char>> {
        views(self.sources@)
    }

    /// The files that could not be read or parsed.
    pub closed spec fn failure_views(&self) -> Seq<ParseFailureV> {
        views(self.parse_failures@)
    }

    pub closed spec fn root_index(&self) -> int {
        self.root as int
    }

    /// Module names are distinct, every module has its source, and the
    /// root is a module that is a crate root.
    pub closed spec fn wf(&self) -> bool {
        &&& self.sources@.len() == self.modules@.len()
        &&& self.root < self.modules@.len()
        &&& self.modules@[self.root as int].is_root
        &&& names_distinct(views(self.modules@))
    }

    pub proof fn lemma_wf(&self)
        requires
            self.wf(),
        ensures
            self.source_views().len() == self.module_views().len(),
            0 <= self.root_index() < self.module_views().len(),
            self.module_views()[self.root_index()].is_root,
            names_distinct(self.module_views()),
    {
    }

    /// In a sound graph a name names one module at most, so that looking a
    /// module up by its name (`get_module`) finds that very module; and the
    /// root is a module marked as the root.
    pub proof fn law_lookup_by_name(&self, k: int)
        requires
            self.wf(),
            0 <= k < self.module_views().len(),
        ensures
            forall|j: int| 0 <= j < self.module_views().len() && self.module_views()[j].name
                == self.module_views()[k].name ==> j == k,
            0 <= self.root_index() < self.module_views().len(),
            self.module_views()[self.root_index()].is_root,
    {
        let ms = self.module_views();
        assert forall|j: int| 0 <= j < ms.len() && ms[j].name == ms[k].name implies j == k by {
            if j < k {
                assert(ms[j].name != ms[k].name);
            } else if k < j {
                assert(ms[k].name != ms[j].name);
            }
        }
    }

    /// Builds the module graph of a crate from its root file and the source
    /// files found under the root's directory (and its `src` directory).
    /// Each file becomes the module named by its path relative to the root's
    /// directory, prefixed by `crate_prefix` when one is given; the root
    /// module is the first `lib.rs` or `main.rs` met.
    pub fn from_files(root_path: &str, files: &Vec<SourceFile>, crate_prefix: Option<&str>) -> (res: Result<ModuleGraph, String>)
        requires
            path_components(root_path@).len() > 0,
            path_components(root_path@).last() != "/"@,
        ensures
            ({
                let acc = add_files(
                    path_components(root_path@).drop_last(),
                    match crate_prefix { Some(p) => Some(p@), None => None },
                    views(files@),
                );
                match res {
                    Ok(g) => {
                        &&& g.wf()
                        &&& g.module_views() == acc.modules
                        &&& g.source_views() == acc.sources
                        &&& g.failure_views() == acc.failures
                        &&& first_root(acc.modules) == Some(g.root_index())
                    },
                    Err(msg) => first_root(acc.modules) is None && msg@ == "No root module found"@,
                }
            }),
    {
        let mut src = components(root_path);
        src.pop();
        let ghost sv = views(src@);
        proof {
            assert(sv =~= path_components(root_path@).drop_last());
        }
        let ghost prefix = match crate_prefix { Some(p) => Some(p@), None => None };
        let ghost fv = views(files@);
        let mut modules: Vec<Module> = Vec::new();
        let mut sources: Vec<String> = Vec::new();
        let mut failures: Vec<ParseFailure> = Vec::new();
        let mut seen: Vec<String> = Vec::new();
        let mut i: usize = 0;
        while i < files.len()
            invariant
                i <= files@.len(),
                sv == views(src@),
                fv == views(files@),
                prefix == match crate_prefix { Some(p) => Some(p@), None => None::<Seq<char>> },
                ({
                    let acc = add_files(sv, prefix, fv.take(i as int));
                    &&& views(modules@) == acc.modules
                    &&& views(sources@) == acc.sources
                    &&& views(failures@) == acc.failures
                    &&& views(seen@) == acc.seen
                }),
                forall|k: int| 0 <= k < modules@.len() ==> views(seen@).contains(#[trigger] modules@[k]@.name),
                names_distinct(views(modules@)),
                modules@.len() == sources@.len(),
            decreases files@.len() - i,
        {
            proof {
                assert(fv.take(i + 1).drop_last() =~= fv.take(i as int));
                assert(fv.take(i + 1).last() == files@[i as int]@);
            }
            let f = &files[i];
            self::add_one(&src, crate_prefix, f, &mut modules, &mut sources, &mut failures, &mut seen);
            i += 1;
        }
        proof {
            assert(fv.take(fv.len() as int) =~= fv);
        }
        let mut r: usize = 0;
        while r < modules.len() && !modules[r].is_root
            invariant
                r <= modules@.len(),
                forall|k: int| 0 <= k < r ==> !(#[trigger] modules@[k]).is_root,
            decreases modules@.len() - r,
        {
            r += 1;
        }
        proof {
            lemma_first_root(views(modules@), r as int);
        }
        if r == modules.len() {
            return Err(String::from_str("No root module found"));
        }
        let g = ModuleGraph { modules, sources, root: r, parse_failures: failures };
        assert(g.wf());
        assert(g.module_views() == views(g.modules@));
        Ok(g)
    }

    /// Builds the merged module graph of a workspace from its crates: the
    /// modules of each crate, named under the crate's name; a crate without
    /// a root module is a failure. A synthetic root module `workspace`
    /// declares the crates that have one.
    pub fn from_workspace(crates: &Vec<CrateSources>) -> (res: ModuleGraph)
        requires
            forall|i: int| 0 <= i < crates@.len() ==> root_path_ok(#[trigger] crates@[i].root_path@),
        ensures
            ({
                let w = workspace_of(views(crates@));
                let r = put_module(w.modules, w.sources, workspace_root(w.roots), Seq::empty());
                &&& res.wf()
                &&& res.module_views() == r.0
                &&& res.source_views() == r.1
                &&& res.failure_views() == w.failures
                &&& res.module_views()[res.root_index()] == workspace_root(w.roots)
            }),
    {
        let ghost cs = views(crates@);
        let mut modules: Vec<Module> = Vec::new();
        let mut sources: Vec<String> = Vec::new();
        let mut failures: Vec<ParseFailure> = Vec::new();
        let mut roots: Vec<String> = Vec::new();
        let mut i: usize = 0;
        assert(cs.take(0) =~= Seq::<CrateSourcesV>::empty());
        while i < crates.len()
            invariant
                i <= crates@.len(),
                cs == views(crates@),
                forall|j: int| 0 <= j < crates@.len() ==> root_path_ok(#[trigger] crates@[j].root_path@),
                ({
                    let w = workspace_of(cs.take(i as int));
                    &&& views(modules@) == w.modules
                    &&& views(sources@) == w.sources
                    &&& views(failures@) == w.failures
                    &&& views(roots@) == w.roots
                }),
                modules@.len() == sources@.len(),
                names_distinct(views(modules@)),
            decreases crates@.len() - i,
        {
            let c = &crates[i];
            proof {
                assert(cs.take(i + 1).drop_last() =~= cs.take(i as int));
                assert(cs.take(i + 1).last() == c@);
                assert(root_path_ok(crates@[i as int].root_path@));
            }
            match ModuleGraph::from_files(c.root_path.as_str(), &c.files, Some(c.name.as_str())) {
                Ok(g) => {
                    proof {
                        assert(g.module_views() == crate_acc(c@).modules);
                    }
                    absorb_graph(&g, &mut modules, &mut sources, &mut failures);
                    let ghost r0 = views(roots@);
                    roots.push(c.name.clone());
                    proof {
                        assert(views(roots@) =~= r0.push(c.name@));
                    }
                },
                Err(e) => {
                    proof {
                        reveal_strlit("crate parse failed: ");
                        reveal_strlit("No root module found");
                        reveal_strlit("crate parse failed: No root module found");
                    }
                    let mut msg = String::from_str("crate parse failed: ");
                    push_str(&mut msg, e.as_str());
                    assert(msg@ =~= "crate parse failed: No root module found"@);
                    let ghost f0 = views(failures@);
                    failures.push(ParseFailure { file_path: c.root_path.clone(), error: msg });
                    proof {
                        assert(views(failures@) =~= f0.push(
                            ParseFailureV { file_path: c.root_path@, error: "crate parse failed: No root module found"@ },
                        ));
                    }
                },
            }
            i += 1;
        }
        proof {
            assert(cs.take(i as int) =~= cs);
        }
        let root_module = Module {
            name: String::from_str("workspace"),
            path: String::new(),
            items: Vec::new(),
            submodules: roots,
            is_root: true,
        };
        proof {
            assert(views(root_module.items@) =~= Seq::<CodeItemV>::empty());
        }
        let ghost m1 = views(modules@);
        put_module_exec(&mut modules, &mut sources, root_module, String::new());
        let mut r: usize = 0;
        while r < modules.len() && !str_eq(modules[r].name.as_str(), "workspace")
            invariant
                r <= modules@.len(),
                forall|j: int| 0 <= j < r ==> (#[trigger] modules@[j])@.name != "workspace"@,
            decreases modules@.len() - r,
        {
            r += 1;
        }
        proof {
            lemma_name_index(m1, "workspace"@);
            let w = workspace_of(cs);
            let mv = views(modules@);
            let idx: int = match name_index(m1, "workspace"@) {
                Some(k) => k,
                None => m1.len() as int,
            };
            assert(0 <= idx < mv.len());
            assert(mv[idx] == workspace_root(w.roots));
            if r < modules@.len() {
                assert(mv[r as int].name == "workspace"@);
                if (r as int) != idx {
                    assert(mv[r as int].name == mv[idx].name);
                }
            } else {
                assert(modules@[idx]@.name == "workspace"@);
            }
        }
        let g = ModuleGraph { modules, sources, root: r, parse_failures: failures };
        assert(g.module_views() == views(g.modules@));
        g
    }

    /// The index of the root module.
    pub fn root_index_exec(&self) -> (res: usize)
        ensures
            res == self.root_index(),
    {
        self.root
    }

    /// Builds the module graph of a crate from its root file and its source
    /// files (see `from_files`), without a crate prefix.
    pub fn from_crate_root(root_path: &str, files: &Vec<SourceFile>) -> (res: Result<ModuleGraph, String>)
        requires
            path_components(root_path@).len() > 0,
            path_components(root_path@).last() != "/"@,
        ensures
            ({
                let acc = add_files(path_components(root_path@).drop_last(), None, views(files@));
                match res {
                    Ok(g) => {
                        &&& g.wf()
                        &&& g.module_views() == acc.modules
                        &&& g.source_views() == acc.sources
                        &&& g.failure_views() == acc.failures
                        &&& first_root(acc.modules) == Some(g.root_index())
                    },
                    Err(msg) => first_root(acc.modules) is None && msg@ == "No root module found"@,
                }
            }),
    {
        ModuleGraph::from_files(root_path, files, None)
    }

    /// A copy of the parse failures.
    pub fn failures(&self) -> (res: Vec<ParseFailure>)
        ensures
            views(res@) == self.failure_views(),
    {
        dup_vec(&self.parse_failures)
    }

    /// The root module.
    pub fn root(&self) -> (res: &Module)
        requires
            self.wf(),
        ensures
            res@ == self.module_views()[self.root_index()],
    {
        &self.modules[self.root]
    }

    /// The module of the given name, if there is one.
    pub fn get_module(&self, name: &str) -> (res: Option<&Module>)
        requires
            self.wf(),
        ensures
            match res {
                Some(m) => exists|k: int| 0 <= k < self.module_views().len()
                    && self.module_views()[k] == m@ && m@.name == name@,
                None => forall|k: int| 0 <= k < self.module_views().len()
                    ==> self.module_views()[k].name != name@,
            },
    {
        match self.find_index(name) {
            Some(k) => Some(&self.modules[k]),
            None => None,
        }
    }

    /// The index of the module of the given name.
    pub fn find_index(&self, name: &str) -> (res: Option<usize>)
        requires
            self.wf(),
        ensures
            match res {
                Some(k) => k < self.module_views().len() && self.module_views()[k as int].name == name@,
                None => forall|k: int| 0 <= k < self.module_views().len()
                    ==> self.module_views()[k].name != name@,
            },
    {
        let mut k: usize = 0;
        while k < self.modules.len()
            invariant
                k <= self.modules@.len(),
                forall|j: int| 0 <= j < k ==> self.modules@[j].name@ != name@,
            decreases self.modules@.len() - k,
        {
            if str_eq(self.modules[k].name.as_str(), name) {
                return Some(k);
            }
            k += 1;
        }
        None
    }

    /// All modules, in the order their files were met.
    pub fn modules(&self) -> (res: &Vec<Module>)
        ensures
            views(res@) == self.module_views(),
    {
        &self.modules
    }

    /// The source text of the module at index `k`.
    pub fn source_at(&self, k: usize) -> (res: &String)
        requires
            self.wf(),
            k < self.module_views().len(),
        ensures
            res@ == self.source_views()[k as int],
    {
        &self.sources[k]
    }

    /// The number of modules.
    pub fn module_count(&self) -> (res: usize)
        ensures
            res == self.module_views().len(),
    {
        self.modules.len()
    }

    /// The indices of the modules that a module declares: for the root the
    /// declared names themselves, for another module the names under its own
    /// (`parent::child`); declarations without a module are passed over.
    pub fn child_indices(&self, k: usize) -> (res: Vec<usize>)
        requires
            self.wf(),
            k < self.module_views().len(),
        ensures
            res@.len() == child_names(self.module_views()[k as int]).filter(module_pred(self.module_views())).len(),
            forall|j: int| 0 <= j < res@.len() ==> (#[trigger] res@[j]) < self.module_views().len(),
            forall|j: int| 0 <= j < res@.len() ==> self.module_views()[#[trigger] res@[j] as int].name
                == child_names(self.module_views()[k as int]).filter(module_pred(self.module_views()))[j],
    {
        let m = &self.modules[k];
        let ghost names = child_names(m@);
        let ghost ms = self.module_views();
        let mut out: Vec<usize> = Vec::new();
        let mut i: usize = 0;
        while i < m.submodules.len()
            invariant
                self.wf(),
                ms == self.module_views(),
                m@ == ms[k as int],
                k < ms.len(),
                names == child_names(m@),
                names.len() == m.submodules@.len(),
                i <= m.submodules@.len(),
                out@.len() == names.take(i as int).filter(module_pred(ms)).len(),
                forall|j: int| 0 <= j < out@.len() ==> (#[trigger] out@[j]) < ms.len(),
                forall|j: int| 0 <= j < out@.len() ==> ms[#[trigger] out@[j] as int].name
                    == names.take(i as int).filter(module_pred(ms))[j],
            decreases m.submodules@.len() - i,
        {
            let full = if m.is_root {
                m.submodules[i].clone()
            } else {
                let mut s = m.name.clone();
                push_str(&mut s, "::");
                push_str(&mut s, m.submodules[i].as_str());
                s
            };
            proof {
                assert(full@ == names[i as int]);
                reveal(Seq::filter);
                let q = names.take(i + 1);
                assert(q.drop_last() =~= names.take(i as int));
                assert(q.last() == names[i as int]);
            }
            match self.find_index(full.as_str()) {
                Some(c) => {
                    proof {
                        assert(has_module(ms, full@));
                    }
                    out.push(c);
                },
                None => {
                    proof {
                        assert(!has_module(ms, full@));
                    }
                },
            }
            i += 1;
        }
        proof {
            assert(names.take(names.len() as int) =~= names);
        }
        out
    }

    /// The modules that a module declares (see `child_indices`); none for
    /// a name that is not a module's.
    pub fn children(&self, module_name: &str) -> (res: Vec<&Module>)
        requires
            self.wf(),
        ensures
            !has_module(self.module_views(), module_name@) ==> res@.len() == 0,
            forall|k: int| 0 <= k < self.module_views().len() && #[trigger] self.module_views()[k].name
                == module_name@ ==> {
                let cs = child_names(self.module_views()[k]).filter(module_pred(self.module_views()));
                &&& res@.len() == cs.len()
                &&& forall|j: int| 0 <= j < res@.len() ==> (#[trigger] res@[j])@.name == cs[j]
            },
    {
        let mut out: Vec<&Module> = Vec::new();
        match self.find_index(module_name) {
            Some(k) => {
                let idx = self.child_indices(k);
                let ghost ms = self.module_views();
                let mut i: usize = 0;
                while i < idx.len()
                    invariant
                        self.wf(),
                        ms == self.module_views(),
                        i <= idx@.len(),
                        out@.len() == i,
                        forall|j: int| 0 <= j < idx@.len() ==> (#[trigger] idx@[j]) < ms.len(),
                        forall|j: int| 0 <= j < i ==> (#[trigger] out@[j])@ == ms[idx@[j] as int],
                    decreases idx@.len() - i,
                {
                    out.push(&self.modules[idx[i]]);
                    i += 1;
                }
                proof {
                    assert forall|k2: int| 0 <= k2 < ms.len() && #[trigger] ms[k2].name == module_name@ implies k2
                        == k by {
                        if k2 != k {
                            assert(ms[k2].name == ms[k as int].name);
                        }
                    }
                }
            },
            None => {},
        }
        out
    }
}

/// The full names of the modules that a module declares.
pub open spec fn child_names(m: ModuleV) -> Seq<Seq<char>> {
    m.submodules.map_values(|s: Seq<char>| if m.is_root { s } else { m.name + "::"@ + s })
}

pub open spec fn module_pred(ms: Seq<ModuleV>) -> spec_fn(Seq<char>) -> bool {
    |n: Seq<char>| has_module(ms, n)
}

/// Some module has this name.
pub open spec fn has_module(ms: Seq<ModuleV>, name: Seq<char>) -> bool {
    exists|k: int| 0 <= k < ms.len() && ms[k].name == name
}

proof fn lemma_first_root(ms: Seq<ModuleV>, r: int)
    requires
        0 <= r <= ms.len(),
        forall|k: int| 0 <= k < r ==> !(#[trigger] ms[k]).is_root,
        r < ms.len() ==> ms[r].is_root,
    ensures
        first_root(ms) == (if r < ms.len() { Some(r) } else { None::<int> }),
    decreases ms.len(),
{
    if ms.len() > 0 {
        let p = ms.drop_last();
        if r < ms.len() - 1 {
            lemma_first_root(p, r);
        } else {
            lemma_first_root(p, p.len() as int);
        }
    }
}

/// Adds one file to the graph under construction.
fn add_one(
    src: &Vec<String>,
    crate_prefix: Option<&str>,
    f: &SourceFile,
    modules: &mut Vec<Module>,
    sources: &mut Vec<String>,
    failures: &mut Vec<ParseFailure>,
    seen: &mut Vec<String>,
)
    requires
        forall|k: int| 0 <= k < old(modules)@.len() ==> views(old(seen)@).contains(#[trigger] old(modules)@[k]@.name),
        names_distinct(views(old(modules)@)),
        old(modules)@.len() == old(sources)@.len(),
    ensures
        final(modules)@.len() == final(sources)@.len(),
        ({
            let prefix = match crate_prefix { Some(p) => Some(p@), None => None::<Seq<char>> };
            let acc = GraphAcc {
                modules: views(old(modules)@),
                sources: views(old(sources)@),
                failures: views(old(failures)@),
                seen: views(old(seen)@),
            };
            let next = add_file(views(src@), prefix, acc, f@);
            &&& views(final(modules)@) == next.modules
            &&& views(final(sources)@) == next.sources
            &&& views(final(failures)@) == next.failures
            &&& views(final(seen)@) == next.seen
        }),
        forall|k: int| 0 <= k < final(modules)@.len() ==> views(final(seen)@).contains(#[trigger] final(modules)@[k]@.name),
        names_distinct(views(final(modules)@)),
{
    let p = f.path.as_str();
    let pc = to_chars(p);
    let comps = components(p);
    let is_rs = if comps.len() > 0 {
        let last = to_chars(comps[comps.len() - 1].as_str());
        last.len() >= 4 && ends_with_str(last.as_slice(), ".rs")
    } else {
        false
    };
    proof {
        if comps@.len() > 0 {
            assert(views(comps@).last() == comps@[comps@.len() - 1]@);
        }
    }
    if !is_rs || contains_str(pc.as_slice(), "/target/") {
        return;
    }
    let raw = match module_name_in(src, p) {
        Ok(n) => n,
        Err(_) => {
            return;
        },
    };
    let name = match crate_prefix {
        Some(pre) => {
            if str_eq(raw.as_str(), "crate") {
                String::from_str(pre)
            } else {
                let mut s = String::from_str(pre);
                push_str(&mut s, "::");
                push_str(&mut s, raw.as_str());
                s
            }
        },
        None => raw,
    };
    if contains_string(seen, name.as_str()) {
        return;
    }
    let ghost old_seen = views(seen@);
    seen.push(name.clone());
    proof {
        assert(views(seen@) =~= old_seen.push(name@));
        assert forall|k: int| 0 <= k < modules@.len() implies views(seen@).contains(#[trigger] modules@[k]@.name) by {
            let j = choose|j: int| 0 <= j < old_seen.len() && old_seen[j] == modules@[k]@.name;
            assert(views(seen@)[j] == old_seen[j]);
        }
    }
    match &f.content {
        Err(e) => {
            let mut msg = String::from_str("read error: ");
            push_str(&mut msg, e.as_str());
            let ghost old_f = views(failures@);
            failures.push(ParseFailure { file_path: f.path.clone(), error: msg });
            proof {
                assert(views(failures@) =~= old_f.push(ParseFailureV { file_path: f.path@, error: "read error: "@ + e@ }));
            }
        },
        Ok(text) => {
            let parsed = parse_file_tolerant(p, text.as_str());
            let items = match parsed {
                Ok(items) => items,
                Err(e) => {
                    let ghost old_f = views(failures@);
                    failures.push(ParseFailure { file_path: f.path.clone(), error: e });
                    proof {
                        assert(views(failures@) =~= old_f.push(ParseFailureV { file_path: f.path@, error: e@ }));
                    }
                    Vec::new()
                },
            };
            let submodules = find_submodule_declarations(text.as_str());
            let last = comps[comps.len() - 1].as_str();
            let is_root = str_eq(last, "lib.rs") || str_eq(last, "main.rs");
            let ghost old_m = views(modules@);
            let ghost old_s = views(sources@);
            let m = Module { name, path: f.path.clone(), items, submodules, is_root };
            proof {
                assert(items@.len() == 0 ==> views(items@) =~= Seq::<CodeItemV>::empty());
            }
            modules.push(m);
            sources.push(text.clone());
            proof {
                assert(views(modules@) =~= old_m.push(modules@[modules@.len() - 1]@));
                assert(views(sources@) =~= old_s.push(text@));
                assert forall|a: int, b: int| 0 <= a < b < views(modules@).len() implies views(modules@)[a].name != views(modules@)[b].name by {
                    if b == views(modules@).len() - 1 {
                        assert(old_seen.contains(old_m[a].name));
                    }
                }
                assert forall|k: int| 0 <= k < modules@.len() implies views(seen@).contains(#[trigger] modules@[k]@.name) by {
                    if k == modules@.len() - 1 {
                        assert(views(seen@)[views(seen@).len() - 1] == name@);
                    } else {
                        assert(old_m[k] == modules@[k]@);
                    }
                }
            }
        },
    }
}

} // verus!
