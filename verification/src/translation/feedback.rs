//! The feedback given to the model after a failed attempt: the build error,
//! the failing tests or the test error, with hints for the kind of program.
use vstd::prelude::*;
use crate::dup::views;
use crate::text::{
    byte_len, byte_len_at_most, decimal, from_chars, join, prefix_within, prefix_within_bytes,
    push_str, seq_join, to_chars, usize_to_string,
};
use crate::translation::{ProgramType, TestVectorResults};

verus! {

/// What to check after a failed build of a library.
pub const BUILD_HINTS_LIBRARY: &'static str = r#"## Common Issues to Check:
1. Missing or incorrect imports
2. Type mismatches
3. Lifetime issues
4. Missing #![feature(...)] declarations
5. Incorrect FFI function signatures

Please fix these compilation errors while maintaining FFI compatibility."#;

/// What to check after a failed build of an executable.
pub const BUILD_HINTS_EXECUTABLE: &'static str = r#"## Common Issues to Check:
1. Missing or incorrect imports
2. Type mismatches
3. Lifetime issues
4. Do not use the `libc` crate — use std equivalents
5. Ensure fn main() exists

Please fix these compilation errors. This is an executable (not a library)."#;

/// Common causes of failing tests of a library.
pub const FAILURE_HINTS_LIBRARY: &'static str = r#"## Common Causes:
1. Incorrect algorithm implementation
2. Off-by-one errors
3. Incorrect handling of edge cases
4. Memory layout differences
5. Integer overflow/underflow handling

Please fix the failing tests while keeping FFI signatures unchanged."#;

/// Common causes of failing tests of an executable.
pub const FAILURE_HINTS_EXECUTABLE: &'static str = r#"## Common Causes:
1. Incorrect algorithm implementation
2. Off-by-one errors in output
3. Wrong output format (extra/missing whitespace or newlines)
4. Incorrect stdin parsing
5. Wrong exit code

Please fix the failing tests. Match the exact stdout output format."#;

/// Possible causes of tests of a library that could not run.
pub const ERROR_HINTS_LIBRARY: &'static str = r#"## Possible Causes:
1. Runtime panic
2. Segmentation fault
3. Stack overflow
4. Missing symbols (check #[no_mangle] exports)
5. Incorrect FFI calling convention

Please ensure all #[no_mangle] pub extern "C" functions are correctly exported."#;

/// Possible causes of tests of an executable that could not run.
pub const ERROR_HINTS_EXECUTABLE: &'static str = r#"## Possible Causes:
1. Runtime panic
2. Segmentation fault
3. Stack overflow
4. Infinite loop (program didn't exit)
5. Missing fn main()

Please ensure the program reads stdin, processes argv, and writes to stdout correctly."#;

/// `text` may be cut at byte `max`: it fits, or `max` falls on a character
/// boundary.
pub open spec fn cuttable(text: Seq<char>, max: nat) -> bool {
    byte_len(text) <= max || byte_len(prefix_within(text, max)) == max
}

/// `text` cut to its first `max` bytes with a note, when it is longer.
pub open spec fn cut_output(text: Seq<char>, max: nat) -> Seq<char> {
    if byte_len(text) <= max {
        text
    } else {
        prefix_within(text, max) + "...\n[Output truncated]"@
    }
}

pub open spec fn build_hints(pt: ProgramType) -> Seq<char> {
    match pt {
        ProgramType::Library => BUILD_HINTS_LIBRARY@,
        ProgramType::Executable => BUILD_HINTS_EXECUTABLE@,
    }
}

pub open spec fn failure_hints(pt: ProgramType) -> Seq<char> {
    match pt {
        ProgramType::Library => FAILURE_HINTS_LIBRARY@,
        ProgramType::Executable => FAILURE_HINTS_EXECUTABLE@,
    }
}

pub open spec fn error_hints(pt: ProgramType) -> Seq<char> {
    match pt {
        ProgramType::Library => ERROR_HINTS_LIBRARY@,
        ProgramType::Executable => ERROR_HINTS_EXECUTABLE@,
    }
}

/// The feedback on a failed build.
pub open spec fn build_feedback(error: Seq<char>, pt: ProgramType) -> Seq<char> {
    "## Build Error\n\nThe code failed to compile with the following errors:\n\n```\n"@
        + cut_output(error, 2000) + "\n```\n\n"@ + build_hints(pt)
}

/// The failure lines of test results, or a note that there are none.
pub open spec fn failures_text(failures: Seq<Seq<char>>) -> Seq<char> {
    if failures.len() == 0 {
        "No detailed failure information available."@
    } else {
        seq_join(failures, "\n\n"@)
    }
}

/// The feedback on failing tests.
pub open spec fn failures_feedback(
    failed: nat,
    total: nat,
    failures: Seq<Seq<char>>,
    pt: ProgramType,
) -> Seq<char> {
    "## Test Failures\n\nThe code compiled but "@ + decimal(failed) + " of "@ + decimal(total)
        + " tests failed.\n\n### Failure Details:\n```\n"@ + cut_output(failures_text(failures), 2000)
        + "\n```\n\n"@ + failure_hints(pt)
}

/// The feedback on tests that could not run.
pub open spec fn error_feedback(error: Seq<char>, pt: ProgramType) -> Seq<char> {
    "## Test Execution Error\n\nThe tests could not be executed due to an error:\n\n```\n"@
        + cut_output(error, 2000) + "\n```\n\n"@ + error_hints(pt)
}

/// The numbered lines `1. w` of the first `n` warnings, joined by line
/// breaks.
pub open spec fn numbered(ws: Seq<Seq<char>>, n: nat) -> Seq<Seq<char>> {
    Seq::new(n, |i: int| decimal((i + 1) as nat) + ". "@ + ws[i])
}

/// The feedback on clippy warnings: at most ten of them, numbered, and how
/// many more there are.
pub open spec fn clippy_feedback(ws: Seq<Seq<char>>) -> Seq<char> {
    if ws.len() == 0 {
        "No clippy warnings."@
    } else {
        let n: nat = if ws.len() < 10 {
            ws.len()
        } else {
            10
        };
        "## Clippy Warnings\n\nThe following warnings were detected:\n\n"@ + seq_join(numbered(ws, n), "\n"@)
            + "\n\n"@ + if ws.len() > 10 {
            "... and "@ + decimal((ws.len() - 10) as nat) + " more warnings"@
        } else {
            Seq::empty()
        }
    }
}

/// Formats the feedback for the model's next attempt.
pub struct FeedbackFormatter;

impl FeedbackFormatter {
    pub fn new() -> (res: Self) {
        FeedbackFormatter
    }

    /// A text cut to `max_chars` bytes with a note, so that feedback stays
    /// short.
    pub fn truncate_output(&self, text: &str, max_chars: usize) -> (res: String)
        requires
            cuttable(text@, max_chars as nat),
        ensures
            res@ == cut_output(text@, max_chars as nat),
    {
        let cs = to_chars(text);
        if byte_len_at_most(cs.as_slice(), max_chars) {
            String::from_str(text)
        } else {
            let head = prefix_within_bytes(cs.as_slice(), max_chars);
            let mut out = from_chars(head.as_slice());
            push_str(&mut out, "...\n[Output truncated]");
            out
        }
    }

    fn build_hints_of(pt: ProgramType) -> (res: &'static str)
        ensures
            res@ == build_hints(pt),
    {
        match pt {
            ProgramType::Library => BUILD_HINTS_LIBRARY,
            ProgramType::Executable => BUILD_HINTS_EXECUTABLE,
        }
    }

    fn failure_hints_of(pt: ProgramType) -> (res: &'static str)
        ensures
            res@ == failure_hints(pt),
    {
        match pt {
            ProgramType::Library => FAILURE_HINTS_LIBRARY,
            ProgramType::Executable => FAILURE_HINTS_EXECUTABLE,
        }
    }

    fn error_hints_of(pt: ProgramType) -> (res: &'static str)
        ensures
            res@ == error_hints(pt),
    {
        match pt {
            ProgramType::Library => ERROR_HINTS_LIBRARY,
            ProgramType::Executable => ERROR_HINTS_EXECUTABLE,
        }
    }

    /// The feedback on a failed build of a library, from the error's
    /// message.
    pub fn format_build_error(&self, error: &str) -> (res: String)
        requires
            cuttable(error@, 2000),
        ensures
            res@ == build_feedback(error@, ProgramType::Library),
    {
        self.format_build_error_for(error, &ProgramType::Library)
    }

    /// The feedback on a failed build, with hints for the kind of program.
    pub fn format_build_error_for(&self, error: &str, program_type: &ProgramType) -> (res: String)
        requires
            cuttable(error@, 2000),
        ensures
            res@ == build_feedback(error@, *program_type),
    {
        let mut out = String::from_str("## Build Error\n\nThe code failed to compile with the following errors:\n\n```\n");
        let cut = self.truncate_output(error, 2000);
        push_str(&mut out, cut.as_str());
        push_str(&mut out, "\n```\n\n");
        push_str(&mut out, Self::build_hints_of(*program_type));
        out
    }

    /// The feedback on failing tests of a library.
    pub fn format_test_failures(&self, results: &TestVectorResults) -> (res: String)
        requires
            cuttable(failures_text(views(results.failures@)), 2000),
        ensures
            res@ == failures_feedback(
                results.failed as nat,
                results.total as nat,
                views(results.failures@),
                ProgramType::Library,
            ),
    {
        self.format_test_failures_for(results, &ProgramType::Library)
    }

    /// The feedback on failing tests, with hints for the kind of program.
    pub fn format_test_failures_for(&self, results: &TestVectorResults, program_type: &ProgramType) -> (res: String)
        requires
            cuttable(failures_text(views(results.failures@)), 2000),
        ensures
            res@ == failures_feedback(
                results.failed as nat,
                results.total as nat,
                views(results.failures@),
                *program_type,
            ),
    {
        let text = if results.failures.len() == 0 {
            String::from_str("No detailed failure information available.")
        } else {
            join(&results.failures, "\n\n")
        };
        let mut out = String::from_str("## Test Failures\n\nThe code compiled but ");
        let f = usize_to_string(results.failed);
        push_str(&mut out, f.as_str());
        push_str(&mut out, " of ");
        let t = usize_to_string(results.total);
        push_str(&mut out, t.as_str());
        push_str(&mut out, " tests failed.\n\n### Failure Details:\n```\n");
        let cut = self.truncate_output(text.as_str(), 2000);
        push_str(&mut out, cut.as_str());
        push_str(&mut out, "\n```\n\n");
        push_str(&mut out, Self::failure_hints_of(*program_type));
        out
    }

    /// The feedback on tests of a library that could not run.
    pub fn format_test_error(&self, error: &str) -> (res: String)
        requires
            cuttable(error@, 2000),
        ensures
            res@ == error_feedback(error@, ProgramType::Library),
    {
        self.format_test_error_for(error, &ProgramType::Library)
    }

    /// The feedback on tests that could not run, with hints for the kind of
    /// program.
    pub fn format_test_error_for(&self, error: &str, program_type: &ProgramType) -> (res: String)
        requires
            cuttable(error@, 2000),
        ensures
            res@ == error_feedback(error@, *program_type),
    {
        let mut out = String::from_str("## Test Execution Error\n\nThe tests could not be executed due to an error:\n\n```\n");
        let cut = self.truncate_output(error, 2000);
        push_str(&mut out, cut.as_str());
        push_str(&mut out, "\n```\n\n");
        push_str(&mut out, Self::error_hints_of(*program_type));
        out
    }

    /// Clippy's warnings as suggestions: the first ten, numbered, and how
    /// many more there are.
    pub fn format_clippy_suggestions(&self, warnings: &Vec<String>) -> (res: String)
        ensures
            res@ == clippy_feedback(views(warnings@)),
    {
        if warnings.len() == 0 {
            return String::from_str("No clippy warnings.");
        }
        let n: usize = if warnings.len() < 10 {
            warnings.len()
        } else {
            10
        };
        let ghost ws = views(warnings@);
        let mut lines: Vec<String> = Vec::new();
        let mut i: usize = 0;
        while i < n
            invariant
                i <= n <= warnings@.len(),
                n <= 10,
                ws == views(warnings@),
                views(lines@) == numbered(ws, i as nat),
            decreases n - i,
        {
            let mut line = usize_to_string(i + 1);
            push_str(&mut line, ". ");
            push_str(&mut line, warnings[i].as_str());
            let ghost before = views(lines@);
            let ghost lv = line@;
            lines.push(line);
            proof {
                assert(views(lines@) =~= before.push(lv));
                assert(views(lines@) =~= numbered(ws, (i + 1) as nat));
            }
            i += 1;
        }
        let mut out = String::from_str("## Clippy Warnings\n\nThe following warnings were detected:\n\n");
        let body = join(&lines, "\n");
        push_str(&mut out, body.as_str());
        push_str(&mut out, "\n\n");
        if warnings.len() > 10 {
            push_str(&mut out, "... and ");
            let more = usize_to_string(warnings.len() - 10);
            push_str(&mut out, more.as_str());
            push_str(&mut out, " more warnings");
        }
        out
    }
}

impl Default for FeedbackFormatter {
    fn default() -> (res: Self) {
        FeedbackFormatter::new()
    }
}

/// Whether `text` may be cut at byte `max`: it fits, or `max` falls on a
/// character boundary.
pub fn can_cut(text: &str, max: usize) -> (res: bool)
    ensures
        res == cuttable(text@, max as nat),
{
    let cs = to_chars(text);
    if byte_len_at_most(cs.as_slice(), max) {
        return true;
    }
    let head = prefix_within_bytes(cs.as_slice(), max);
    proof {
        crate::text::lemma_prefix_within_bound(cs@, max as nat);
    }
    if max == 0 {
        true
    } else {
        !byte_len_at_most(head.as_slice(), max - 1)
    }
}

/// The failure lines of test results joined by blank lines, or a note that
/// there are none.
pub fn failures_text_of(results: &TestVectorResults) -> (res: String)
    ensures
        res@ == failures_text(views(results.failures@)),
{
    if results.failures.len() == 0 {
        String::from_str("No detailed failure information available.")
    } else {
        join(&results.failures, "\n\n")
    }
}

/// The build feedback shows the error under a fixed heading, then the hints
/// of the program's kind: the whole error when it takes at most 2000 bytes,
/// else its first 2000 bytes (the error is cut on a character boundary)
/// followed by a note that it was cut.
pub proof fn law_build_feedback(error: Seq<char>, pt: ProgramType)
    requires
        cuttable(error, 2000),
    ensures
        ({
            let shown = if byte_len(error) <= 2000 {
                error
            } else {
                prefix_within(error, 2000) + "...\n[Output truncated]"@
            };
            &&& build_feedback(error, pt) == "## Build Error\n\nThe code failed to compile with the following errors:\n\n```\n"@
                + shown + "\n```\n\n"@ + build_hints(pt)
            &&& byte_len(error) > 2000 ==> prefix_within(error, 2000).is_prefix_of(error) && byte_len(
                prefix_within(error, 2000),
            ) == 2000
        }),
{
    if byte_len(error) > 2000 {
        lemma_prefix_count_len(error, 2000);
        assert(prefix_within(error, 2000).is_prefix_of(error));
    }
}

proof fn lemma_prefix_count_len(s: Seq<char>, max: nat)
    ensures
        crate::text::prefix_count(s, max) <= s.len(),
    decreases s.len(),
{
    if s.len() > 0 && crate::text::utf8_width(s[0]) <= max {
        lemma_prefix_count_len(s.subrange(1, s.len() as int), (max - crate::text::utf8_width(s[0])) as nat);
    }
}

} // verus!
