//! The source a program's translation starts from: which directory holds
//! it, and the code gathered from its `lib.rs` files.
use vstd::prelude::*;
use crate::dup::views;
use crate::parser::paths::{path_join, seq_path_join};
use crate::text::{
    join, lines_of, push_str, seq_join, seq_lines, seq_starts_with, seq_trim, starts_with_str,
    to_chars, trim, trim_str,
};

verus! {

/// The kinds of line the gathering of sources looks for.
#[derive(Clone, Copy, PartialEq, Eq, Structural)]
pub enum SourceLine {
    /// An inner attribute (`#![...]`)
    Attribute,
    /// A line that is not an inner attribute, a module declaration or the
    /// end of a module
    Code,
    /// A line of real code: not empty, a module declaration, a comment, an
    /// inner attribute or the end of a module
    RealCode,
}

/// The line is of the given kind, judged on its trimmed text.
pub open spec fn is_line(kind: SourceLine, line: Seq<char>) -> bool {
    let t = seq_trim(line);
    match kind {
        SourceLine::Attribute => seq_starts_with(t, "#!["@),
        SourceLine::Code => !seq_starts_with(t, "#!["@) && !seq_starts_with(t, "pub mod "@)
            && !seq_starts_with(t, "} //"@),
        SourceLine::RealCode => t.len() > 0 && !seq_starts_with(t, "pub mod "@) && !seq_starts_with(
            t,
            "//"@,
        ) && !seq_starts_with(t, "#!["@) && !seq_starts_with(t, "} //"@),
    }
}

pub open spec fn line_kind(kind: SourceLine) -> spec_fn(Seq<char>) -> bool {
    |l: Seq<char>| is_line(kind, l)
}

/// The lines of `s` of the given kind, joined by newlines.
pub open spec fn lines_of_kind(kind: SourceLine, s: Seq<char>) -> Seq<char> {
    seq_join(seq_lines(s).filter(line_kind(kind)), "\n"@)
}

fn line_is(kind: SourceLine, line: &str) -> (res: bool)
    ensures
        res == is_line(kind, line@),
{
    let t = trim(to_chars(line).as_slice());
    let t = t.as_slice();
    match kind {
        SourceLine::Attribute => starts_with_str(t, "#!["),
        SourceLine::Code => !starts_with_str(t, "#![") && !starts_with_str(t, "pub mod ")
            && !starts_with_str(t, "} //"),
        SourceLine::RealCode => t.len() > 0 && !starts_with_str(t, "pub mod ") && !starts_with_str(
            t,
            "//",
        ) && !starts_with_str(t, "#![") && !starts_with_str(t, "} //"),
    }
}

/// The lines of `content` of the given kind, joined by newlines.
pub fn select_lines(content: &str, kind: SourceLine) -> (res: String)
    ensures
        res@ == lines_of_kind(kind, content@),
{
    let lines = lines_of(content);
    let ghost ls = views(lines@);
    let mut kept: Vec<String> = Vec::new();
    let mut i: usize = 0;
    while i < lines.len()
        invariant
            i <= lines@.len(),
            ls == views(lines@),
            views(kept@) == ls.take(i as int).filter(line_kind(kind)),
        decreases lines@.len() - i,
    {
        proof {
            assert(ls.take(i + 1).drop_last() =~= ls.take(i as int));
            assert(ls.take(i + 1).last() == lines@[i as int]@);
        }
        let keep = line_is(kind, lines[i].as_str());
        proof {
            assert(line_kind(kind)(lines@[i as int]@) == keep);
            reveal(Seq::filter);
            let q = ls.take(i + 1);
            assert(q.filter(line_kind(kind)) == (if line_kind(kind)(q.last()) {
                q.drop_last().filter(line_kind(kind)).push(q.last())
            } else {
                q.drop_last().filter(line_kind(kind))
            }));
        }
        if keep {
            kept.push(lines[i].clone());
            proof {
                assert(views(kept@) =~= ls.take(i as int).filter(line_kind(kind)).push(
                    lines@[i as int]@,
                ));
            }
        }
        i += 1;
    }
    proof {
        assert(ls.take(lines@.len() as int) =~= ls);
    }
    join(&kept, "\n")
}

/// Some line of `s` is real code.
pub open spec fn has_real_code(s: Seq<char>) -> bool {
    exists|i: int| 0 <= i < seq_lines(s).len() && is_line(SourceLine::RealCode, #[trigger] seq_lines(s)[i])
}

/// Whether some line of `content` is real code.
fn has_real_code_exec(content: &str) -> (res: bool)
    ensures
        res == has_real_code(content@),
{
    let lines = lines_of(content);
    let ghost ls = views(lines@);
    assert(ls == seq_lines(content@));
    let mut i: usize = 0;
    while i < lines.len()
        invariant
            i <= lines@.len(),
            ls == views(lines@),
            ls == seq_lines(content@),
            forall|k: int| 0 <= k < i ==> !is_line(SourceLine::RealCode, #[trigger] ls[k]),
        decreases lines@.len() - i,
    {
        if line_is(SourceLine::RealCode, lines[i].as_str()) {
            assert(is_line(SourceLine::RealCode, ls[i as int]));
            return true;
        }
        i += 1;
    }
    false
}

/// The parts gathered from the top-level `lib.rs`: its inner attributes,
/// and when it holds real code, that code without attributes, module
/// declarations and module ends, trimmed; empty parts are left out.
pub open spec fn top_parts(content: Seq<char>) -> Seq<Seq<char>> {
    let attrs = lines_of_kind(SourceLine::Attribute, content);
    let a: Seq<Seq<char>> = if attrs.len() > 0 {
        seq![attrs]
    } else {
        Seq::empty()
    };
    if has_real_code(content) {
        let code = seq_trim(lines_of_kind(SourceLine::Code, content));
        if code.len() > 0 {
            a.push(code)
        } else {
            a
        }
    } else {
        a
    }
}

/// The parts of a program's source: those of the top-level `lib.rs` when
/// there is one, then the whole `src/lib.rs` when there is one.
pub open spec fn source_parts(top_lib: Option<Seq<char>>, src_lib: Option<Seq<char>>) -> Seq<Seq<char>> {
    let t = match top_lib {
        Some(c) => top_parts(c),
        None => Seq::empty(),
    };
    match src_lib {
        Some(c) => t.push(c),
        None => t,
    }
}

/// The code of a program gathered from its `lib.rs` (top-level, given by
/// its content when the file exists) and its `src/lib.rs`: the parts joined
/// by blank lines, or an error when there is none.
pub fn collect_source_code(
    source_dir: &str,
    top_lib: Option<&str>,
    src_lib: Option<&str>,
) -> (res: Result<String, String>)
    ensures
        ({
            let parts = source_parts(
                match top_lib { Some(c) => Some(c@), None => None },
                match src_lib { Some(c) => Some(c@), None => None },
            );
            if parts.len() == 0 {
                res matches Err(e) && e@ == "No Rust source files found in "@ + source_dir@
            } else {
                res matches Ok(code) && code@ == seq_join(parts, "\n\n"@)
            }
        }),
{
    let mut parts: Vec<String> = Vec::new();
    match top_lib {
        Some(content) => {
            let attrs = select_lines(content, SourceLine::Attribute);
            if !attrs.as_str().is_empty() {
                parts.push(attrs);
            }
            if has_real_code_exec(content) {
                let code = select_lines(content, SourceLine::Code);
                let code = trim_str(code.as_str());
                if !code.as_str().is_empty() {
                    let ghost before = views(parts@);
                    let ghost cv = code@;
                    parts.push(code);
                    assert(views(parts@) =~= before.push(cv));
                }
            }
            assert(views(parts@) =~= top_parts(content@));
        },
        None => {
            assert(views(parts@) =~= Seq::<Seq<char>>::empty());
        },
    }
    match src_lib {
        Some(content) => {
            let ghost before = views(parts@);
            parts.push(String::from_str(content));
            assert(views(parts@) =~= before.push(content@));
        },
        None => {},
    }
    if parts.len() == 0 {
        let mut e = String::from_str("No Rust source files found in ");
        push_str(&mut e, source_dir);
        return Err(e);
    }
    Ok(join(&parts, "\n\n"))
}

} // verus!
