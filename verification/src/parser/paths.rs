//! Paths as `/`-separated text: joining, components, the crate root of a
//! directory and the module name of a file.
//!
//! A path's components are a leading `/` when it is absolute, then its
//! segments between slashes, empty segments and `.` left out.
use vstd::prelude::*;
use crate::translation::runner::{debug_quoted, debug_str};
use crate::dup::views;
use crate::text::{
    seq_ends_with, seq_join, seq_split, ends_with_str, from_chars, join, push_str, split_on,
    str_eq, to_chars, slice_range,
};

verus! {

/// `Path::join` of a relative path: a separator is put between the two
/// unless the directory is empty or already ends with one.
pub open spec fn seq_path_join(dir: Seq<char>, rel: Seq<char>) -> Seq<char> {
    if dir.len() == 0 {
        rel
    } else if dir.last() == '/' {
        dir + rel
    } else {
        dir + "/"@ + rel
    }
}

pub fn path_join(dir: &str, rel: &str) -> (res: String)
    ensures
        res@ == seq_path_join(dir@, rel@),
{
    let d = to_chars(dir);
    let mut out = from_chars(d.as_slice());
    if d.len() > 0 && d[d.len() - 1] != '/' {
        push_str(&mut out, "/");
    }
    push_str(&mut out, rel);
    out
}

/// A segment that counts as a component.
pub open spec fn is_segment(s: Seq<char>) -> bool {
    s.len() > 0 && s != "."@
}

pub open spec fn segment_pred() -> spec_fn(Seq<char>) -> bool {
    |s: Seq<char>| is_segment(s)
}

/// The components of a path.
pub open spec fn path_components(p: Seq<char>) -> Seq<Seq<char>> {
    (if p.len() > 0 && p[0] == '/' {
        seq!["/"@]
    } else {
        Seq::empty()
    }) + seq_split(p, '/').filter(segment_pred())
}

/// The components of a path.
pub fn components(p: &str) -> (res: Vec<String>)
    ensures
        views(res@) == path_components(p@),
{
    let cs = to_chars(p);
    let mut out: Vec<String> = Vec::new();
    if cs.len() > 0 && cs[0] == '/' {
        out.push(String::from_str("/"));
    }
    let ghost head = views(out@);
    proof {
        reveal_strlit("/");
        assert(head =~= (if p@.len() > 0 && p@[0] == '/' {
            seq!["/"@]
        } else {
            Seq::<Seq<char>>::empty()
        }));
    }
    let parts = split_on(cs.as_slice(), '/');
    let ghost ps = seq_split(p@, '/');
    let mut i: usize = 0;
    while i < parts.len()
        invariant
            i <= parts@.len(),
            cs@ == p@,
            parts@.len() == ps.len(),
            forall|k: int| 0 <= k < parts@.len() ==> #[trigger] parts@[k]@ == ps[k],
            views(out@) == head + ps.take(i as int).filter(segment_pred()),
        decreases parts@.len() - i,
    {
        let part = &parts[i];
        let dot: Vec<char> = vec!['.'];
        let keep = part.len() > 0 && !crate::text::chars_eq(part.as_slice(), dot.as_slice());
        proof {
            reveal_strlit(".");
            assert(dot@ =~= "."@);
            reveal(Seq::filter);
            let q = ps.take(i + 1);
            assert(q.drop_last() =~= ps.take(i as int));
            assert(q.last() == part@);
            assert(segment_pred()(part@) == keep);
            assert(q.filter(segment_pred()) == (if segment_pred()(q.last()) {
                q.drop_last().filter(segment_pred()).push(q.last())
            } else {
                q.drop_last().filter(segment_pred())
            }));
        }
        if keep {
            let s = from_chars(part.as_slice());
            let ghost before = views(out@);
            out.push(s);
            proof {
                assert(views(out@) =~= before.push(part@));
            }
        }
        i += 1;
    }
    proof {
        assert(ps.take(ps.len() as int) =~= ps);
    }
    out
}

/// The module path segments of the components of a file path relative to the
/// source directory: `mod.rs`, `lib.rs` and `main.rs` add nothing, and a
/// `.rs` suffix is removed.
pub open spec fn module_segments(comps: Seq<Seq<char>>) -> Seq<Seq<char>>
    decreases comps.len(),
{
    if comps.len() == 0 {
        Seq::empty()
    } else {
        let rest = module_segments(comps.drop_last());
        let c = comps.last();
        if c == "mod.rs"@ || c == "lib.rs"@ || c == "main.rs"@ {
            rest
        } else if seq_ends_with(c, ".rs"@) {
            rest.push(c.take(c.len() - 3))
        } else {
            rest.push(c)
        }
    }
}

/// The module name of `file` in the crate whose sources are under `src`:
/// the module segments joined by `::`, or `crate` when there are none; an
/// error when `file` is not under `src`.
pub open spec fn module_name_of(src: Seq<char>, file: Seq<char>) -> Result<Seq<char>, Seq<char>> {
    module_name_under(path_components(src), file)
}

/// The module name of `file` under the directory with components `a`.
pub open spec fn module_name_under(a: Seq<Seq<char>>, file: Seq<char>) -> Result<Seq<char>, Seq<char>> {
    let b = path_components(file);
    if a.len() <= b.len() && b.take(a.len() as int) == a {
        let segs = module_segments(b.skip(a.len() as int));
        Ok(
            if segs.len() == 0 {
                "crate"@
            } else {
                seq_join(segs, "::"@)
            },
        )
    } else {
        Err("Path not in src dir"@)
    }
}

fn strings_prefix(a: &Vec<String>, b: &Vec<String>) -> (res: bool)
    ensures
        res == (a@.len() <= b@.len() && views(b@).take(a@.len() as int) == views(a@)),
{
    if a.len() > b.len() {
        return false;
    }
    let mut i: usize = 0;
    while i < a.len()
        invariant
            i <= a@.len() <= b@.len(),
            forall|k: int| 0 <= k < i ==> a@[k]@ == b@[k]@,
        decreases a@.len() - i,
    {
        if !str_eq(a[i].as_str(), b[i].as_str()) {
            proof {
                assert(views(b@).take(a@.len() as int)[i as int] != views(a@)[i as int]);
            }
            return false;
        }
        i += 1;
    }
    assert(views(b@).take(a@.len() as int) =~= views(a@));
    true
}

/// Converts a file path to a module name (`src/foo/bar.rs` under `src` is `foo::bar`).
pub fn path_to_module_name(src_dir: &str, file_path: &str) -> (res: Result<String, String>)
    ensures
        match res {
            Ok(name) => module_name_of(src_dir@, file_path@) == Ok::<Seq<char>, Seq<char>>(name@),
            Err(msg) => module_name_of(src_dir@, file_path@) == Err::<Seq<char>, Seq<char>>(msg@),
        },
{
    let a = components(src_dir);
    module_name_in(&a, file_path)
}

/// The module name of a file under the directory with components `a`.
pub fn module_name_in(a: &Vec<String>, file_path: &str) -> (res: Result<String, String>)
    ensures
        match res {
            Ok(name) => module_name_under(views(a@), file_path@) == Ok::<Seq<char>, Seq<char>>(name@),
            Err(msg) => module_name_under(views(a@), file_path@) == Err::<Seq<char>, Seq<char>>(msg@),
        },
{
    let b = components(file_path);
    if !strings_prefix(a, &b) {
        return Err(String::from_str("Path not in src dir"));
    }
    let ghost rel = views(b@).skip(a@.len() as int);
    let mut segs: Vec<String> = Vec::new();
    let mut i: usize = a.len();
    while i < b.len()
        invariant
            a@.len() <= i <= b@.len(),
            rel == views(b@).skip(a@.len() as int),
            views(segs@) == module_segments(rel.take(i - a@.len())),
        decreases b@.len() - i,
    {
        proof {
            assert(rel.take(i - a@.len() + 1).drop_last() =~= rel.take(i - a@.len()));
            assert(rel.take(i - a@.len() + 1).last() == b@[i as int]@);
        }
        let c = b[i].as_str();
        let ghost old_segs = views(segs@);
        if str_eq(c, "mod.rs") || str_eq(c, "lib.rs") || str_eq(c, "main.rs") {
        } else {
            let cc = to_chars(c);
            if ends_with_str(cc.as_slice(), ".rs") {
                proof {
                    reveal_strlit(".rs");
                }
                let stem = slice_range(cc.as_slice(), 0, cc.len() - 3);
                segs.push(from_chars(stem.as_slice()));
                proof {
                    assert(stem@ =~= c@.take(c@.len() - 3));
                    assert(views(segs@) =~= old_segs.push(c@.take(c@.len() - 3)));
                }
            } else {
                segs.push(String::from_str(c));
                proof {
                    assert(views(segs@) =~= old_segs.push(c@));
                }
            }
        }
        i += 1;
    }
    proof {
        assert(rel.take(b@.len() - a@.len()) =~= rel);
    }
    if segs.len() == 0 {
        Ok(String::from_str("crate"))
    } else {
        Ok(join(&segs, "::"))
    }
}

/// The crate root that `find_crate_root` picks, given which of the four
/// candidate files exist: `src/lib.rs`, `src/main.rs`, `lib.rs`, `main.rs`,
/// in this order.
pub open spec fn crate_root_of(
    dir: Seq<char>,
    src_lib: bool,
    src_main: bool,
    root_lib: bool,
    root_main: bool,
) -> Result<Seq<char>, Seq<char>> {
    if src_lib {
        Ok(seq_path_join(dir, "src/lib.rs"@))
    } else if src_main {
        Ok(seq_path_join(dir, "src/main.rs"@))
    } else if root_lib {
        Ok(seq_path_join(dir, "lib.rs"@))
    } else if root_main {
        Ok(seq_path_join(dir, "main.rs"@))
    } else {
        Err("Could not find crate root (lib.rs or main.rs) in "@ + debug_quoted(dir))
    }
}

/// Finds the crate root of a directory: `src/lib.rs` or `src/main.rs` of the
/// standard layout, else `lib.rs` or `main.rs` in the directory itself. The
/// flags tell which of these files exist.
pub fn find_crate_root(
    dir: &str,
    has_src_lib: bool,
    has_src_main: bool,
    has_root_lib: bool,
    has_root_main: bool,
) -> (res: Result<String, String>)
    ensures
        match res {
            Ok(p) => crate_root_of(dir@, has_src_lib, has_src_main, has_root_lib, has_root_main)
                == Ok::<Seq<char>, Seq<char>>(p@),
            Err(m) => crate_root_of(dir@, has_src_lib, has_src_main, has_root_lib, has_root_main)
                == Err::<Seq<char>, Seq<char>>(m@),
        },
{
    if has_src_lib {
        Ok(path_join(dir, "src/lib.rs"))
    } else if has_src_main {
        Ok(path_join(dir, "src/main.rs"))
    } else if has_root_lib {
        Ok(path_join(dir, "lib.rs"))
    } else if has_root_main {
        Ok(path_join(dir, "main.rs"))
    } else {
        let mut m = String::from_str("Could not find crate root (lib.rs or main.rs) in ");
        push_str(&mut m, debug_str(dir).as_str());
        Err(m)
    }
}

} // verus!
