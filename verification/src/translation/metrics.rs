//! Idiomaticity measures of translated code: unsafe blocks, raw pointers
//! and clippy warnings.
use vstd::prelude::*;
use crate::dup::views;
use crate::text::str_eq;
use crate::translation::patterns::{regex_count, regex_match_count};

verus! {

/// The pattern of an unsafe block.
pub const UNSAFE_BLOCK_PATTERN: &'static str = r"unsafe\s*\{";

/// The pattern of a raw pointer type.
pub const RAW_POINTER_PATTERN: &'static str = r"\*(?:mut|const)\s+\w+";

/// The pattern of a cast to a raw pointer.
pub const POINTER_CAST_PATTERN: &'static str = r"as\s+\*(?:mut|const)";

/// The number of matches of one of the fixed patterns, which are valid
/// regular expressions (0 stands for the case of an invalid one).
pub open spec fn matches_of(pattern: Seq<char>, text: Seq<char>) -> nat {
    match regex_count(pattern, text) {
        Some(n) => n,
        None => 0,
    }
}

/// A diagnostic of a clippy message.
#[derive(Debug, Clone)]
pub struct ClippyDiagnostic {
    pub level: String,
    pub message: String,
}

/// One JSON line of `cargo clippy --message-format=json`.
#[derive(Debug, Clone)]
pub struct ClippyMessage {
    pub reason: String,
    pub message: Option<ClippyDiagnostic>,
}

/// The warnings among clippy's messages: the texts of the diagnostics at
/// level `warning` of its compiler messages, in order.
pub open spec fn warnings_of(msgs: Seq<ClippyMessage>) -> Seq<Seq<char>>
    decreases msgs.len(),
{
    if msgs.len() == 0 {
        Seq::empty()
    } else {
        let before = warnings_of(msgs.drop_last());
        let m = msgs.last();
        if m.reason@ == "compiler-message"@ && m.message is Some && m.message->0.level@
            == "warning"@ {
            before.push(m.message->0.message@)
        } else {
            before
        }
    }
}

/// Measures how idiomatic translated code is.
pub struct ClippyAnalyzer;

impl ClippyAnalyzer {
    pub fn new() -> (res: Self) {
        ClippyAnalyzer
    }

    /// The number of unsafe blocks in a source.
    pub fn count_unsafe_blocks(&self, source: &str) -> (res: usize)
        ensures
            res == matches_of(UNSAFE_BLOCK_PATTERN@, source@),
    {
        match regex_match_count(UNSAFE_BLOCK_PATTERN, source) {
            Some(n) => n,
            None => 0,
        }
    }

    /// The number of raw pointer types and casts to raw pointers in a
    /// source (added with saturation).
    pub fn count_raw_pointers(&self, source: &str) -> (res: usize)
        ensures
            res == crate::text::sat(
                (matches_of(RAW_POINTER_PATTERN@, source@) + matches_of(POINTER_CAST_PATTERN@, source@)) as int,
            ),
    {
        let a = match regex_match_count(RAW_POINTER_PATTERN, source) {
            Some(n) => n,
            None => 0,
        };
        let b = match regex_match_count(POINTER_CAST_PATTERN, source) {
            Some(n) => n,
            None => 0,
        };
        a.saturating_add(b)
    }

    /// The warning texts among clippy's messages.
    pub fn collect_warnings(&self, msgs: &Vec<ClippyMessage>) -> (res: Vec<String>)
        ensures
            views(res@) == warnings_of(msgs@),
    {
        let mut out: Vec<String> = Vec::new();
        let mut k: usize = 0;
        assert(msgs@.take(0) =~= Seq::<ClippyMessage>::empty());
        while k < msgs.len()
            invariant
                k <= msgs@.len(),
                views(out@) == warnings_of(msgs@.take(k as int)),
            decreases msgs@.len() - k,
        {
            let m = &msgs[k];
            proof {
                assert(msgs@.take(k + 1).drop_last() =~= msgs@.take(k as int));
                assert(msgs@.take(k + 1).last() == *m);
            }
            if str_eq(m.reason.as_str(), "compiler-message") {
                match &m.message {
                    Some(d) => {
                        if str_eq(d.level.as_str(), "warning") {
                            let ghost before = views(out@);
                            out.push(d.message.clone());
                            assert(views(out@) =~= before.push(d.message@));
                        }
                    },
                    None => {},
                }
            }
            k += 1;
        }
        assert(msgs@.take(k as int) =~= msgs@);
        out
    }
}

impl Default for ClippyAnalyzer {
    fn default() -> (res: Self) {
        ClippyAnalyzer::new()
    }
}

} // verus!
