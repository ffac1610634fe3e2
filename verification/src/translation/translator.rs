//! The prompts that ask a model for a translation, and the code taken
//! from its answer.
use vstd::prelude::*;
use crate::text::{find, from_chars, lemma_find_from, matches_at, push_str, seq_find, seq_trim, slice_range, to_chars, trim};
use crate::translation::{ProgramType, SourceType};

verus! {

/// The system prompt for translating a C2Rust library.
pub const RUST_LIBRARY_SYSTEM_PROMPT: &'static str = r#"You convert C2Rust code to idiomatic Rust while preserving FFI compatibility.

RULES (violating any = broken build):
- Keep ALL `#[no_mangle] pub unsafe extern "C"` function signatures EXACTLY: same name, params (including `mut`), types, return type
- Keep ALL `#[no_mangle] pub static` declarations unchanged
- Keep ALL `#![feature(...)]` declarations
- Keep FFI-boundary types C-compatible (repr(C), primitives, raw pointers)
- Keep module structure (`pub mod src { pub mod lib { ... } }`)
- Preserve the algorithm/logic; only change implementation style

TRANSFORMS (internal code only):
- malloc/calloc/free → Vec, Box, or Rust allocation
- Raw pointer arithmetic → slice indexing where safe
- C-style loops → iterators or for-range
- Redundant casts → direct literals (e.g. `8u8`)
- `0 as *const T` → `std::ptr::null()`/`null_mut()`
- Use const, meaningful names, Option/Result internally

Be conservative. When in doubt, preserve original code.

Output ONLY the code in a ```rust block, no explanations."#;

/// The system prompt for translating a C library.
pub const C_LIBRARY_SYSTEM_PROMPT: &'static str = r#"You translate C code to idiomatic Rust while preserving FFI compatibility.

RULES (violating any = broken build):
- Every public C function must become `#[no_mangle] pub unsafe extern "C" fn` with the EXACT same name, parameter types (using C-compatible types: c_int, c_uint, c_char, etc.), and return type
- Use `use std::os::raw::*;` or `use std::ffi::*;` for C type aliases
- Keep ALL global/static state as `#[no_mangle] pub static` or `static mut` where needed
- Keep FFI-boundary types C-compatible (repr(C) for structs, primitives, raw pointers)
- Preserve the algorithm/logic exactly; only change implementation style
- The output must compile as a single `lib.rs` file

TRANSFORMS (internal code only):
- malloc/calloc/free → Vec, Box, or Rust allocation
- Raw pointer arithmetic → slice indexing where safe
- C-style loops → iterators or for-range
- C string handling → Rust string/CStr where possible internally
- C macros → Rust functions, constants, or inline code
- C structs → Rust structs with #[repr(C)] when exposed at FFI boundary
- Use const, meaningful names, Option/Result internally

Be conservative. When in doubt, keep the unsafe implementation close to the C original.
Produce a SINGLE lib.rs file with all code.

Output ONLY the code in a ```rust block, no explanations."#;

/// The system prompt for translating a C2Rust executable.
pub const RUST_EXECUTABLE_SYSTEM_PROMPT: &'static str = r#"You convert C2Rust executable code to idiomatic Rust.

RULES (violating any = broken program):
- The output must be a single `main.rs` file with `fn main()`
- Convert the C2Rust `main_0`/`main` pattern to a clean `fn main()`
- Convert `argc`/`argv` patterns to `std::env::args()`
- Convert `printf`/`fprintf` to `print!()`/`eprint!()`/`write!()` — match the EXACT output format
- Convert `scanf`/`fgets`/`getchar` to `std::io::stdin().read_line()` or similar
- Convert `atoi`/`atof`/`strtol` to Rust's `.parse()` methods
- Convert `exit(n)` to `std::process::exit(n)`
- Keep ALL `#![feature(...)]` and `#![allow(...)]` declarations
- Preserve the algorithm/logic; only change implementation style
- Do NOT use the `libc` crate — use `std` equivalents for all I/O and string operations
- Do NOT use `#[no_mangle]`, `extern "C"`, or any FFI exports

TRANSFORMS (internal code only):
- malloc/calloc/free → Vec, Box, or Rust allocation
- Raw pointer arithmetic → slice indexing where safe
- C-style loops → iterators or for-range
- Redundant casts → direct literals
- C string handling → Rust String/&str
- Use const, meaningful names, Option/Result

Be conservative. Preserve exact output formatting (whitespace, newlines).

Output ONLY the code in a ```rust block, no explanations."#;

/// The system prompt for translating a C executable.
pub const C_EXECUTABLE_SYSTEM_PROMPT: &'static str = r#"You translate C executable code to idiomatic Rust.

RULES (violating any = broken program):
- The output must be a single `main.rs` file with `fn main()`
- `argc`/`argv` → `std::env::args()`
- `printf`/`fprintf(stdout, ...)` → `print!()`/`write!()` — match EXACT output format (spacing, newlines)
- `fprintf(stderr, ...)` → `eprint!()`/`write!(std::io::stderr(), ...)`
- `scanf`/`fgets`/`getchar`/`getc(stdin)` → `std::io::stdin().read_line()` or `.bytes()`
- `atoi`/`atof`/`strtol` → `.parse::<i32>()` etc.
- `exit(n)` → `std::process::exit(n)`
- `malloc`/`calloc`/`free` → Vec, Box, or Rust allocation
- Do NOT use the `libc` crate — use only `std` library
- Do NOT use `#[no_mangle]`, `extern "C"`, or any FFI exports
- Preserve the algorithm/logic exactly; only change implementation style
- C structs → Rust structs (no need for #[repr(C)] since there's no FFI boundary)
- C macros → Rust functions, constants, or inline code

IMPORTANT: The program is tested by comparing stdout output character-by-character.
Match the exact output format of the original C program.

Output ONLY the code in a ```rust block, no explanations."#;

/// A user prompt: the head, the source and the closing fence; after a
/// failed attempt, the feedback, with the previous translation when one is
/// given (and feedback is given too).
pub open spec fn prompt_text(
    head: Seq<char>,
    src: Seq<char>,
    feedback: Option<&str>,
    previous: Option<&str>,
    fix_previous: Seq<char>,
    fix: Seq<char>,
) -> Seq<char> {
    head + src + "\n```"@ + match previous {
        Some(p) => match feedback {
            Some(f) => "\n\nYour previous translation:\n```rust\n"@ + p@
                + "\n```\n\nPREVIOUS ATTEMPT FAILED with error:\n"@ + f@ + fix_previous,
            None => Seq::empty(),
        },
        None => match feedback {
            Some(f) => "\n\nPREVIOUS ATTEMPT FAILED with error:\n"@ + f@ + fix,
            None => Seq::empty(),
        },
    }
}

/// The user prompt for a Rust library.
pub open spec fn build_user_prompt_text(src: Seq<char>, feedback: Option<&str>, previous: Option<&str>) -> Seq<char> {
    prompt_text("Transform this C2Rust code to idiomatic Rust:\n\n```rust\n"@, src, feedback, previous, "\nFix the specific issues in your previous translation while keeping FFI compatibility."@, "\nFix these issues while keeping FFI compatibility."@)
}

/// The user prompt for a C library.
pub open spec fn build_c_user_prompt_text(src: Seq<char>, feedback: Option<&str>, previous: Option<&str>) -> Seq<char> {
    prompt_text("Translate this C code to idiomatic Rust:\n\n```c\n"@, src, feedback, previous, "\nFix the specific issues in your previous translation while keeping FFI compatibility."@, "\nFix these issues while keeping FFI compatibility."@)
}

/// The user prompt for a C2Rust executable.
pub open spec fn build_executable_user_prompt_text(src: Seq<char>, feedback: Option<&str>, previous: Option<&str>) -> Seq<char> {
    prompt_text("Transform this C2Rust executable code to idiomatic Rust:\n\n```rust\n"@, src, feedback, previous, "\nFix the specific issues in your previous translation. This is an executable program (not a library), so use fn main() and std I/O."@, "\nFix these issues. This is an executable program (not a library), so use fn main() and std I/O."@)
}

/// The user prompt for a C executable.
pub open spec fn build_executable_c_user_prompt_text(src: Seq<char>, feedback: Option<&str>, previous: Option<&str>) -> Seq<char> {
    prompt_text("Translate this C executable code to idiomatic Rust:\n\n```c\n"@, src, feedback, previous, "\nFix the specific issues in your previous translation. This is an executable program (not a library), so use fn main() and std I/O. Do not use the libc crate."@, "\nFix these issues. This is an executable program (not a library), so use fn main() and std I/O. Do not use the libc crate."@)
}

fn build_prompt(
    head: &str,
    src: &str,
    feedback: Option<&str>,
    previous: Option<&str>,
    fix_previous: &str,
    fix: &str,
) -> (res: String)
    ensures
        res@ == prompt_text(head@, src@, feedback, previous, fix_previous@, fix@),
{
    let mut p = String::from_str(head);
    push_str(&mut p, src);
    push_str(&mut p, "\n```");
    match previous {
        Some(prev) => {
            match feedback {
                Some(f) => {
                    push_str(&mut p, "\n\nYour previous translation:\n```rust\n");
                    push_str(&mut p, prev);
                    push_str(&mut p, "\n```\n\nPREVIOUS ATTEMPT FAILED with error:\n");
                    push_str(&mut p, f);
                    push_str(&mut p, fix_previous);
                },
                None => {},
            }
        },
        None => {
            match feedback {
                Some(f) => {
                    push_str(&mut p, "\n\nPREVIOUS ATTEMPT FAILED with error:\n");
                    push_str(&mut p, f);
                    push_str(&mut p, fix);
                },
                None => {},
            }
        },
    }
    p
}

/// The code of a fenced block that starts at `rest`: the text up to the
/// next fence, trimmed, if there is one.
pub open spec fn block_code(rest: Seq<char>) -> Option<Seq<char>> {
    match seq_find(rest, "```"@) {
        Some(e) => Some(seq_trim(rest.take(e))),
        None => None,
    }
}

/// The code in a model's answer: the first ```` ```rust ```` block, else
/// the first fenced block (its first line, the language, skipped), else the
/// whole answer; trimmed.
pub open spec fn code_in(r: Seq<char>) -> Seq<char> {
    let rust_block = match seq_find(r, "```rust"@) {
        Some(s) => block_code(r.skip(s + "```rust"@.len())),
        None => None,
    };
    match rust_block {
        Some(c) => c,
        None => {
            let plain = match seq_find(r, "```"@) {
                Some(s) => {
                    let after = r.skip(s + "```"@.len());
                    let body = match seq_find(after, seq!['\n']) {
                        Some(nl) => after.skip(nl + 1),
                        None => after,
                    };
                    block_code(body)
                },
                None => None,
            };
            match plain {
                Some(c) => c,
                None => seq_trim(r),
            }
        },
    }
}

/// The code of the block starting at `from` in `r`, if it is closed.
fn block_code_exec(r: &[char], from: usize) -> (res: Option<Vec<char>>)
    requires
        from <= r@.len(),
    ensures
        match block_code(r@.skip(from as int)) {
            Some(c) => res is Some && res->0@ == c,
            None => res is None,
        },
{
    let rest = slice_range(r, from, r.len());
    assert(rest@ =~= r@.skip(from as int));
    let fence = to_chars("```");
    match find(rest.as_slice(), fence.as_slice()) {
        Some(e) => {
            proof {
                lemma_find_from(rest@, fence@, 0);
            }
            let rl = rest.len();
            assert(matches_at(rest@, fence@, e as int));
            let head = slice_range(rest.as_slice(), 0, e);
            assert(head@ =~= rest@.take(e as int));
            Some(trim(head.as_slice()))
        },
        None => None,
    }
}

/// Converts C2Rust output or C code into idiomatic Rust with a model.
pub struct Translator;

impl Translator {
    pub fn new() -> (res: Self) {
        Translator
    }

    pub fn build_system_prompt(&self) -> (res: String)
        ensures
            res@ == RUST_LIBRARY_SYSTEM_PROMPT@,
    {
        String::from_str(RUST_LIBRARY_SYSTEM_PROMPT)
    }

    pub fn build_c_system_prompt(&self) -> (res: String)
        ensures
            res@ == C_LIBRARY_SYSTEM_PROMPT@,
    {
        String::from_str(C_LIBRARY_SYSTEM_PROMPT)
    }

    pub fn build_executable_system_prompt(&self) -> (res: String)
        ensures
            res@ == RUST_EXECUTABLE_SYSTEM_PROMPT@,
    {
        String::from_str(RUST_EXECUTABLE_SYSTEM_PROMPT)
    }

    pub fn build_executable_c_system_prompt(&self) -> (res: String)
        ensures
            res@ == C_EXECUTABLE_SYSTEM_PROMPT@,
    {
        String::from_str(C_EXECUTABLE_SYSTEM_PROMPT)
    }

    /// The user prompt for a Rust library: the source, and after a failed
    /// attempt the feedback (with the previous translation, when given).
    pub fn build_user_prompt(&self, source_code: &str, feedback: Option<&str>, previous_code: Option<&str>) -> (res: String)
        ensures
            res@ == build_user_prompt_text(source_code@, feedback, previous_code),
    {
        build_prompt(
            "Transform this C2Rust code to idiomatic Rust:\n\n```rust\n",
            source_code,
            feedback,
            previous_code,
            "\nFix the specific issues in your previous translation while keeping FFI compatibility.",
            "\nFix these issues while keeping FFI compatibility.",
        )
    }

    /// The user prompt for a C library: the source, and after a failed
    /// attempt the feedback (with the previous translation, when given).
    pub fn build_c_user_prompt(&self, source_code: &str, feedback: Option<&str>, previous_code: Option<&str>) -> (res: String)
        ensures
            res@ == build_c_user_prompt_text(source_code@, feedback, previous_code),
    {
        build_prompt(
            "Translate this C code to idiomatic Rust:\n\n```c\n",
            source_code,
            feedback,
            previous_code,
            "\nFix the specific issues in your previous translation while keeping FFI compatibility.",
            "\nFix these issues while keeping FFI compatibility.",
        )
    }

    /// The user prompt for a C2Rust executable: the source, and after a failed
    /// attempt the feedback (with the previous translation, when given).
    pub fn build_executable_user_prompt(&self, source_code: &str, feedback: Option<&str>, previous_code: Option<&str>) -> (res: String)
        ensures
            res@ == build_executable_user_prompt_text(source_code@, feedback, previous_code),
    {
        build_prompt(
            "Transform this C2Rust executable code to idiomatic Rust:\n\n```rust\n",
            source_code,
            feedback,
            previous_code,
            "\nFix the specific issues in your previous translation. This is an executable program (not a library), so use fn main() and std I/O.",
            "\nFix these issues. This is an executable program (not a library), so use fn main() and std I/O.",
        )
    }

    /// The user prompt for a C executable: the source, and after a failed
    /// attempt the feedback (with the previous translation, when given).
    pub fn build_executable_c_user_prompt(&self, source_code: &str, feedback: Option<&str>, previous_code: Option<&str>) -> (res: String)
        ensures
            res@ == build_executable_c_user_prompt_text(source_code@, feedback, previous_code),
    {
        build_prompt(
            "Translate this C executable code to idiomatic Rust:\n\n```c\n",
            source_code,
            feedback,
            previous_code,
            "\nFix the specific issues in your previous translation. This is an executable program (not a library), so use fn main() and std I/O. Do not use the libc crate.",
            "\nFix these issues. This is an executable program (not a library), so use fn main() and std I/O. Do not use the libc crate.",
        )
    }

    /// The system and user prompts for a source of the given language and
    /// a program of the given kind.
    pub fn prompts(
        &self,
        source_code: &str,
        feedback: Option<&str>,
        previous_code: Option<&str>,
        source_type: &SourceType,
        program_type: &ProgramType,
    ) -> (res: (String, String))
        ensures
            match (*source_type, *program_type) {
                (SourceType::C, ProgramType::Executable) => res.0@ == C_EXECUTABLE_SYSTEM_PROMPT@
                    && res.1@ == build_executable_c_user_prompt_text(source_code@, feedback, previous_code),
                (SourceType::C, ProgramType::Library) => res.0@ == C_LIBRARY_SYSTEM_PROMPT@
                    && res.1@ == build_c_user_prompt_text(source_code@, feedback, previous_code),
                (SourceType::Rust, ProgramType::Executable) => res.0@ == RUST_EXECUTABLE_SYSTEM_PROMPT@
                    && res.1@ == build_executable_user_prompt_text(source_code@, feedback, previous_code),
                (SourceType::Rust, ProgramType::Library) => res.0@ == RUST_LIBRARY_SYSTEM_PROMPT@
                    && res.1@ == build_user_prompt_text(source_code@, feedback, previous_code),
            },
    {
        match (*source_type, *program_type) {
            (SourceType::C, ProgramType::Executable) => (
                self.build_executable_c_system_prompt(),
                self.build_executable_c_user_prompt(source_code, feedback, previous_code),
            ),
            (SourceType::C, ProgramType::Library) => (
                self.build_c_system_prompt(),
                self.build_c_user_prompt(source_code, feedback, previous_code),
            ),
            (SourceType::Rust, ProgramType::Executable) => (
                self.build_executable_system_prompt(),
                self.build_executable_user_prompt(source_code, feedback, previous_code),
            ),
            (SourceType::Rust, ProgramType::Library) => (
                self.build_system_prompt(),
                self.build_user_prompt(source_code, feedback, previous_code),
            ),
        }
    }

    /// The Rust code in a model's answer.
    pub fn extract_code(&self, response: &str) -> (res: Result<String, String>)
        ensures
            res matches Ok(c) && c@ == code_in(response@),
    {
        let r = to_chars(response);
        let rust_fence = to_chars("```rust");
        let fence = to_chars("```");
        proof {
            reveal_strlit("```rust");
            reveal_strlit("```");
        }
        match find(r.as_slice(), rust_fence.as_slice()) {
            Some(s) => {
                proof {
                    lemma_find_from(r@, rust_fence@, 0);
                }
                let rl = r.len();
                assert(matches_at(r@, rust_fence@, s as int));
                match block_code_exec(r.as_slice(), s + 7) {
                    Some(c) => {
                        return Ok(from_chars(c.as_slice()));
                    },
                    None => {},
                }
            },
            None => {},
        }
        match find(r.as_slice(), fence.as_slice()) {
            Some(s) => {
                proof {
                    lemma_find_from(r@, fence@, 0);
                }
                let rl = r.len();
                assert(matches_at(r@, fence@, s as int));
                let after = slice_range(r.as_slice(), s + 3, rl);
                assert(after@ =~= r@.skip(s + 3));
                let nl: Vec<char> = vec!['\n'];
                assert(nl@ =~= seq!['\n']);
                let start = match find(after.as_slice(), nl.as_slice()) {
                    Some(k) => {
                        proof {
                            lemma_find_from(after@, nl@, 0);
                        }
                        let al = after.len();
                        assert(matches_at(after@, nl@, k as int));
                        assert(after@.skip(k + 1) =~= r@.skip(s + 3 + k + 1));
                        s + 3 + k + 1
                    },
                    None => s + 3,
                };
                match block_code_exec(r.as_slice(), start) {
                    Some(c) => {
                        return Ok(from_chars(c.as_slice()));
                    },
                    None => {},
                }
            },
            None => {},
        }
        let t = trim(r.as_slice());
        Ok(from_chars(t.as_slice()))
    }
}

impl Default for Translator {
    fn default() -> (res: Self) {
        Translator::new()
    }
}

} // verus!
