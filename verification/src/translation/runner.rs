//! Reading the output of a translated program's tests, and matching its
//! output against an expected pattern.
use vstd::prelude::*;
use crate::dup::views;
use crate::text::{
    contains_str, ends_with_str, from_chars, join, push_str, seq_contains, seq_ends_with, seq_join,
    seq_lines, seq_trim, split_lines, str_eq, to_chars, trim,
};
use crate::translation::patterns::{regex_is_match, regex_verdict};
use crate::translation::types::{ProgramInfo, TestVectorResults};
use crate::dup::opt_view;
use crate::text::{decimal, usize_to_string};

verus! {

/// The passed and failed verdict lines among test output lines (`1.json:
/// true`, `2.json: false`), and the failed ones, trimmed.
pub open spec fn verdicts(lines: Seq<Seq<char>>) -> (nat, nat, Seq<Seq<char>>)
    decreases lines.len(),
{
    if lines.len() == 0 {
        (0, 0, Seq::empty())
    } else {
        let before = verdicts(lines.drop_last());
        let t = seq_trim(lines.last());
        if seq_ends_with(t, ": true"@) {
            (before.0 + 1, before.1, before.2)
        } else if seq_ends_with(t, ": false"@) {
            (before.0, before.1 + 1, before.2.push(t))
        } else {
            before
        }
    }
}

/// The output tells of a crash: a panic or a fatal signal.
pub open spec fn crashed(out: Seq<char>) -> bool {
    seq_contains(out, "panicked"@) || seq_contains(out, "SIGSEGV"@) || seq_contains(out, "SIGABRT"@)
}

/// What test output says, for `total` test vectors: its verdict lines when
/// it has some; else all failed, with the first twenty lines as the
/// failure, when it tells of a crash; else all passed.
pub open spec fn test_outcome(stdout: Seq<char>, stderr: Seq<char>, total: nat) -> (nat, nat, Seq<Seq<char>>) {
    let combined = stdout + "\n"@ + stderr;
    let lines = seq_lines(combined);
    let v = verdicts(lines);
    if v.0 == 0 && v.1 == 0 {
        if crashed(combined) {
            (0, total, seq![seq_join(lines.take(if lines.len() < 20 { lines.len() as int } else { 20 }), "\n"@)])
        } else {
            (total, 0, Seq::empty())
        }
    } else {
        v
    }
}

/// The actual output matches the expected one: exactly, or as a regular
/// expression when it is one and compiles (an invalid one is compared
/// exactly).
pub open spec fn pattern_matches(actual: Seq<char>, expected: Seq<char>, is_regex: bool) -> bool {
    if is_regex {
        match regex_verdict(expected, actual) {
            Some(b) => b,
            None => actual == expected,
        }
    } else {
        actual == expected
    }
}

/// Builds and tests one translated program.
pub struct TestRunner {
    pub program: ProgramInfo,
    pub output_dir: String,
}

impl TestRunner {
    pub fn new(program: ProgramInfo, output_dir: String) -> (res: Self)
        ensures
            res.program == program,
            res.output_dir == output_dir,
    {
        TestRunner { program, output_dir }
    }

    /// The results of a test run from its output, for `total` test
    /// vectors.
    pub fn parse_test_output(&self, stdout: &str, stderr: &str, total: usize) -> (res: Result<TestVectorResults, String>)
        ensures
            res matches Ok(r) && {
                let o = test_outcome(stdout@, stderr@, total as nat);
                r.total == total && r.passed == o.0 && r.failed == o.1 && views(r.failures@) == o.2
            },
    {
        let mut combined = String::from_str(stdout);
        push_str(&mut combined, "\n");
        push_str(&mut combined, stderr);
        let cc = to_chars(combined.as_str());
        let lines = split_lines(cc.as_slice());
        let ghost ls = seq_lines(combined@);
        assert(views(lines@) =~= ls);
        let mut passed: usize = 0;
        let mut failed: usize = 0;
        let mut failures: Vec<String> = Vec::new();
        let mut k: usize = 0;
        assert(ls.take(0) =~= Seq::<Seq<char>>::empty());
        while k < lines.len()
            invariant
                k <= lines@.len(),
                ls == views(lines@),
                passed + failed <= k,
                (passed as nat, failed as nat, views(failures@)) == verdicts(ls.take(k as int)),
            decreases lines@.len() - k,
        {
            proof {
                assert(ls.take(k + 1).drop_last() =~= ls.take(k as int));
                assert(ls.take(k + 1).last() == lines@[k as int]@);
            }
            let t = trim(lines[k].as_slice());
            if ends_with_str(t.as_slice(), ": true") {
                passed += 1;
            } else if ends_with_str(t.as_slice(), ": false") {
                failed += 1;
                let ghost before = views(failures@);
                failures.push(from_chars(t.as_slice()));
                assert(views(failures@) =~= before.push(t@));
            }
            k += 1;
        }
        assert(ls.take(k as int) =~= ls);
        if passed == 0 && failed == 0 {
            if contains_str(cc.as_slice(), "panicked") || contains_str(cc.as_slice(), "SIGSEGV")
                || contains_str(cc.as_slice(), "SIGABRT") {
                let n: usize = if lines.len() < 20 {
                    lines.len()
                } else {
                    20
                };
                let mut first: Vec<String> = Vec::new();
                let mut i: usize = 0;
                while i < n
                    invariant
                        i <= n <= lines@.len(),
                        ls == views(lines@),
                        views(first@) == ls.take(i as int),
                    decreases n - i,
                {
                    let ghost before = views(first@);
                    let line = from_chars(lines[i].as_slice());
                    let ghost lv = line@;
                    first.push(line);
                    assert(views(first@) =~= before.push(lv));
                    assert(views(first@) =~= ls.take(i + 1));
                    i += 1;
                }
                let joined = join(&first, "\n");
                let mut fs: Vec<String> = Vec::new();
                fs.push(joined);
                assert(views(fs@) =~= seq![seq_join(ls.take(n as int), "\n"@)]);
                return Ok(TestVectorResults { total, passed: 0, failed: total, failures: fs });
            } else {
                let empty: Vec<String> = Vec::new();
                assert(views(empty@) =~= Seq::<Seq<char>>::empty());
                return Ok(TestVectorResults { total, passed: total, failed: 0, failures: empty });
            }
        }
        Ok(TestVectorResults { total, passed, failed, failures })
    }

    /// Whether the actual output matches the expected one, exactly or as a
    /// regular expression.
    pub fn check_pattern(actual: &str, expected: &str, is_regex: bool) -> (res: bool)
        ensures
            res == pattern_matches(actual@, expected@, is_regex),
    {
        if is_regex {
            match regex_is_match(expected, actual) {
                Some(b) => b,
                None => str_eq(actual, expected),
            }
        } else {
            str_eq(actual, expected)
        }
    }
}

/// How `Debug` prints a string: quoted, with escapes.
pub uninterp spec fn debug_quoted(s: Seq<char>) -> Seq<char>;

/// `format!("{:?}", s)` for a string: std's `Debug` for `str`, which
/// quotes the text and escapes quotes, backslashes and control
/// characters. Its result is the name `debug_quoted` of the text.
#[verifier::external_body]
pub(crate) fn debug_str(s: &str) -> (res: String)
    ensures
        res@ == debug_quoted(s@),
{
    format!("{:?}", s)
}

/// An integer in decimal, with a `-` when negative.
pub open spec fn signed_decimal(i: int) -> Seq<char> {
    if i < 0 {
        "-"@ + decimal((-i) as nat)
    } else {
        decimal(i as nat)
    }
}

fn i32_to_string(i: i32) -> (res: String)
    ensures
        res@ == signed_decimal(i as int),
{
    if i < 0 {
        let m: u32 = if i == i32::MIN {
            2147483648u32
        } else {
            (-i) as u32
        };
        let mut s = String::from_str("-");
        push_str(&mut s, usize_to_string(m as usize).as_str());
        s
    } else {
        usize_to_string(i as usize)
    }
}

/// An expected output: a text, or a regular expression.
#[derive(Debug, Clone)]
pub struct OutputPattern {
    pub pattern: String,
    pub is_regex: Option<bool>,
}

/// One test vector of an executable: its arguments and input, and the
/// expected output and exit code.
#[derive(Debug, Clone)]
pub struct ExecTestVector {
    pub argv: Vec<String>,
    pub stdin: Option<String>,
    pub stdout: Option<OutputPattern>,
    pub stderr: Option<OutputPattern>,
    pub rc: Option<i32>,
}

/// The mismatches of one run of an executable against its test vector:
/// the standard output when a pattern is given and does not match, the
/// error output when a non-empty pattern is given and does not match, and
/// the exit code (expected 0 when none is given).
pub open spec fn mismatches(tv: ExecTestVector, out: Seq<char>, err: Seq<char>, rc: i32) -> Seq<Seq<char>> {
    let a: Seq<Seq<char>> = match tv.stdout {
        Some(p) => if pattern_matches(out, p.pattern@, match p.is_regex { Some(b) => b, None => false }) {
            Seq::empty()
        } else {
            seq!["stdout mismatch:\n  expected: "@ + debug_quoted(p.pattern@) + "\n  actual:   "@ + debug_quoted(out)]
        },
        None => Seq::empty(),
    };
    let b: Seq<Seq<char>> = match tv.stderr {
        Some(p) => if p.pattern@.len() == 0 || pattern_matches(err, p.pattern@, match p.is_regex { Some(b) => b, None => false }) {
            a
        } else {
            a.push("stderr mismatch:\n  expected: "@ + debug_quoted(p.pattern@) + "\n  actual:   "@ + debug_quoted(err))
        },
        None => a,
    };
    let expected: i32 = match tv.rc {
        Some(r) => r,
        None => 0,
    };
    if rc != expected {
        b.push("exit code mismatch: expected "@ + signed_decimal(expected as int) + ", got "@ + signed_decimal(rc as int))
    } else {
        b
    }
}

/// The failure report of one test vector, or none when it passed.
pub open spec fn vector_verdict(name: Seq<char>, tv: ExecTestVector, out: Seq<char>, err: Seq<char>, rc: i32) -> Option<Seq<char>> {
    let m = mismatches(tv, out, err, rc);
    if m.len() == 0 {
        None
    } else {
        Some(name + ": FAILED\n"@ + seq_join(m, "\n"@))
    }
}

impl TestRunner {
    /// Judges one run of an executable against its test vector: none when it
    /// passed, else the test's name and its mismatches.
    pub fn judge_vector(
        test_name: &str,
        tv: &ExecTestVector,
        actual_stdout: &str,
        actual_stderr: &str,
        actual_rc: i32,
    ) -> (res: Option<String>)
        ensures
            opt_view(res) == vector_verdict(test_name@, *tv, actual_stdout@, actual_stderr@, actual_rc),
    {
        let mut details: Vec<String> = Vec::new();
        match &tv.stdout {
            Some(p) => {
                let is_regex = match p.is_regex {
                    Some(b) => b,
                    None => false,
                };
                if !Self::check_pattern(actual_stdout, p.pattern.as_str(), is_regex) {
                    let mut d = String::from_str("stdout mismatch:\n  expected: ");
                    push_str(&mut d, debug_str(p.pattern.as_str()).as_str());
                    push_str(&mut d, "\n  actual:   ");
                    push_str(&mut d, debug_str(actual_stdout).as_str());
                    details.push(d);
                }
            },
            None => {},
        }
        let ghost a = views(details@);
        match &tv.stderr {
            Some(p) => {
                if !p.pattern.as_str().is_empty() {
                    let is_regex = match p.is_regex {
                        Some(b) => b,
                        None => false,
                    };
                    if !Self::check_pattern(actual_stderr, p.pattern.as_str(), is_regex) {
                        let mut d = String::from_str("stderr mismatch:\n  expected: ");
                        push_str(&mut d, debug_str(p.pattern.as_str()).as_str());
                        push_str(&mut d, "\n  actual:   ");
                        push_str(&mut d, debug_str(actual_stderr).as_str());
                        let ghost dv = d@;
                        details.push(d);
                        assert(views(details@) =~= a.push(dv));
                    }
                }
            },
            None => {},
        }
        let expected: i32 = match tv.rc {
            Some(r) => r,
            None => 0,
        };
        if actual_rc != expected {
            let mut d = String::from_str("exit code mismatch: expected ");
            push_str(&mut d, i32_to_string(expected).as_str());
            push_str(&mut d, ", got ");
            push_str(&mut d, i32_to_string(actual_rc).as_str());
            let ghost before = views(details@);
            let ghost dv = d@;
            details.push(d);
            assert(views(details@) =~= before.push(dv));
        }
        assert(views(details@) =~= mismatches(*tv, actual_stdout@, actual_stderr@, actual_rc));
        if details.len() == 0 {
            None
        } else {
            let mut f = String::from_str(test_name);
            push_str(&mut f, ": FAILED\n");
            push_str(&mut f, join(&details, "\n").as_str());
            Some(f)
        }
    }

    /// The results of the test vectors of an executable from their
    /// verdicts (none for a pass): how many passed and failed, and the
    /// failure reports in order.
    pub fn tally_vectors(total: usize, verdicts: Vec<Option<String>>) -> (res: TestVectorResults)
        ensures
            res.total == total,
            res.passed + res.failed == verdicts@.len(),
            res.failed == verdicts@.filter(|v: Option<String>| v is Some).len(),
            views(res.failures@) == verdicts@.filter(|v: Option<String>| v is Some).map_values(
                |v: Option<String>| v->0@,
            ),
    {
        let mut passed: usize = 0;
        let mut failed: usize = 0;
        let mut failures: Vec<String> = Vec::new();
        let ghost vs = verdicts@;
        let n = verdicts.len();
        for v in it: verdicts
            invariant
                vs == it.seq(),
                vs.len() == n,
                passed + failed == it.index(),
                failed == vs.take(it.index() as int).filter(|v: Option<String>| v is Some).len(),
                views(failures@) == vs.take(it.index() as int).filter(|v: Option<String>| v is Some).map_values(
                    |v: Option<String>| v->0@,
                ),
        {
            let ghost k = it.index();
            assert(k < vs.len());
            proof {
                reveal(Seq::filter);
                assert(vs.take(k + 1).drop_last() =~= vs.take(k as int));
                assert(vs.take(k + 1).last() == v);
            }
            match v {
                Some(f) => {
                    let ghost before = views(failures@);
                    let ghost fv = f@;
                    failures.push(f);
                    failed += 1;
                    proof {
                        assert(views(failures@) =~= before.push(fv));
                    }
                },
                None => {
                    passed += 1;
                },
            }
        }
        assert(vs.take(vs.len() as int) =~= vs);
        TestVectorResults { total, passed, failed, failures }
    }
}

} // verus!
