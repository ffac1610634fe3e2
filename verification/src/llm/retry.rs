//! When a failed model request is tried again, and how long to wait first.
//! The request loop itself, which awaits the model and sleeps, stands
//! outside the library; it asks these functions what to do with an error.
use vstd::prelude::*;
use vstd::arithmetic::power2::{lemma2_to64, lemma_pow2_strictly_increases, lemma_pow2_unfold, pow2};
use crate::navigation::priority::{lowercase, to_lowercase};
use crate::text::{
    any_contains, contains_any, find, lemma_find_from, matches_at, parse_u64, parsed_uint,
    seq_contains, seq_find, slice_range, str_views, to_chars,
};

verus! {

/// Error texts that mark a failure as passing: rate limits, server errors,
/// overload, timeouts and broken connections.
pub open spec fn retryable_patterns() -> Seq<Seq<char>> {
    seq![
        "429"@,
        "rate limit"@,
        "rate_limit"@,
        "too many requests"@,
        "500"@,
        "502"@,
        "503"@,
        "529"@,
        "overloaded"@,
        "capacity"@,
        "timeout"@,
        "timed out"@,
        "connection reset"@,
        "connection refused"@,
        "connection closed"@,
        "broken pipe"@,
        "eof"@,
        "dns error"@,
        "network"@,
        "temporarily unavailable"@,
        "server error"@,
    ]
}

/// Error texts that mark a rate limit or an overloaded service.
pub open spec fn rate_limit_patterns() -> Seq<Seq<char>> {
    seq!["429"@, "rate limit"@, "rate_limit"@, "too many requests"@, "overloaded"@, "529"@]
}

/// Whether an error, given by its full message (the error and its causes),
/// is worth retrying: its lowercased message holds one of the retryable
/// patterns.
pub fn is_retryable(msg: &str) -> (res: bool)
    ensures
        res == any_contains(lowercase(msg@), retryable_patterns()),
{
    let lower = to_lowercase(msg);
    let l = to_chars(lower.as_str());
    let patterns: Vec<&str> = vec![
        "429",
        "rate limit",
        "rate_limit",
        "too many requests",
        "500",
        "502",
        "503",
        "529",
        "overloaded",
        "capacity",
        "timeout",
        "timed out",
        "connection reset",
        "connection refused",
        "connection closed",
        "broken pipe",
        "eof",
        "dns error",
        "network",
        "temporarily unavailable",
        "server error",
    ];
    assert(str_views(patterns@) =~= retryable_patterns());
    contains_any(l.as_slice(), &patterns)
}

/// Whether an error, given by its full message, is a rate limit or an
/// overload.
pub fn is_rate_limit(msg: &str) -> (res: bool)
    ensures
        res == any_contains(lowercase(msg@), rate_limit_patterns()),
{
    let lower = to_lowercase(msg);
    let l = to_chars(lower.as_str());
    let patterns: Vec<&str> = vec!["429", "rate limit", "rate_limit", "too many requests", "overloaded", "529"];
    assert(str_views(patterns@) =~= rate_limit_patterns());
    contains_any(l.as_slice(), &patterns)
}

/// A failure whose lowercased message holds any of these is retried: the
/// rate limits (429, `rate limit`, `too many requests`), the server errors
/// 500, 502, 503 and 529, overload and capacity, timeouts, broken
/// connections, network and DNS failures, and temporary unavailability.
pub proof fn law_transient_errors_retried(msg: Seq<char>)
    ensures
        ({
            let l = lowercase(msg);
            (seq_contains(l, "429"@) ||
            seq_contains(l, "rate limit"@) ||
            seq_contains(l, "rate_limit"@) ||
            seq_contains(l, "too many requests"@) ||
            seq_contains(l, "500"@) ||
            seq_contains(l, "502"@) ||
            seq_contains(l, "503"@) ||
            seq_contains(l, "529"@) ||
            seq_contains(l, "overloaded"@) ||
            seq_contains(l, "capacity"@) ||
            seq_contains(l, "timeout"@) ||
            seq_contains(l, "timed out"@) ||
            seq_contains(l, "connection reset"@) ||
            seq_contains(l, "connection refused"@) ||
            seq_contains(l, "connection closed"@) ||
            seq_contains(l, "broken pipe"@) ||
            seq_contains(l, "eof"@) ||
            seq_contains(l, "dns error"@) ||
            seq_contains(l, "network"@) ||
            seq_contains(l, "temporarily unavailable"@) ||
            seq_contains(l, "server error"@)) ==> any_contains(l, retryable_patterns())
        }),
{
    let l = lowercase(msg);
    if seq_contains(l, "429"@) {
        assert(retryable_patterns()[0] == "429"@);
    }
    if seq_contains(l, "rate limit"@) {
        assert(retryable_patterns()[1] == "rate limit"@);
    }
    if seq_contains(l, "rate_limit"@) {
        assert(retryable_patterns()[2] == "rate_limit"@);
    }
    if seq_contains(l, "too many requests"@) {
        assert(retryable_patterns()[3] == "too many requests"@);
    }
    if seq_contains(l, "500"@) {
        assert(retryable_patterns()[4] == "500"@);
    }
    if seq_contains(l, "502"@) {
        assert(retryable_patterns()[5] == "502"@);
    }
    if seq_contains(l, "503"@) {
        assert(retryable_patterns()[6] == "503"@);
    }
    if seq_contains(l, "529"@) {
        assert(retryable_patterns()[7] == "529"@);
    }
    if seq_contains(l, "overloaded"@) {
        assert(retryable_patterns()[8] == "overloaded"@);
    }
    if seq_contains(l, "capacity"@) {
        assert(retryable_patterns()[9] == "capacity"@);
    }
    if seq_contains(l, "timeout"@) {
        assert(retryable_patterns()[10] == "timeout"@);
    }
    if seq_contains(l, "timed out"@) {
        assert(retryable_patterns()[11] == "timed out"@);
    }
    if seq_contains(l, "connection reset"@) {
        assert(retryable_patterns()[12] == "connection reset"@);
    }
    if seq_contains(l, "connection refused"@) {
        assert(retryable_patterns()[13] == "connection refused"@);
    }
    if seq_contains(l, "connection closed"@) {
        assert(retryable_patterns()[14] == "connection closed"@);
    }
    if seq_contains(l, "broken pipe"@) {
        assert(retryable_patterns()[15] == "broken pipe"@);
    }
    if seq_contains(l, "eof"@) {
        assert(retryable_patterns()[16] == "eof"@);
    }
    if seq_contains(l, "dns error"@) {
        assert(retryable_patterns()[17] == "dns error"@);
    }
    if seq_contains(l, "network"@) {
        assert(retryable_patterns()[18] == "network"@);
    }
    if seq_contains(l, "temporarily unavailable"@) {
        assert(retryable_patterns()[19] == "temporarily unavailable"@);
    }
    if seq_contains(l, "server error"@) {
        assert(retryable_patterns()[20] == "server error"@);
    }
}

/// Only those failures are retried: a failure is retried exactly when its
/// lowercased message holds one of the listed texts.
pub proof fn law_only_transient_errors_retried(msg: Seq<char>)
    ensures
        ({
            let l = lowercase(msg);
            any_contains(l, retryable_patterns()) ==> (seq_contains(l, "429"@) ||
            seq_contains(l, "rate limit"@) ||
            seq_contains(l, "rate_limit"@) ||
            seq_contains(l, "too many requests"@) ||
            seq_contains(l, "500"@) ||
            seq_contains(l, "502"@) ||
            seq_contains(l, "503"@) ||
            seq_contains(l, "529"@) ||
            seq_contains(l, "overloaded"@) ||
            seq_contains(l, "capacity"@) ||
            seq_contains(l, "timeout"@) ||
            seq_contains(l, "timed out"@) ||
            seq_contains(l, "connection reset"@) ||
            seq_contains(l, "connection refused"@) ||
            seq_contains(l, "connection closed"@) ||
            seq_contains(l, "broken pipe"@) ||
            seq_contains(l, "eof"@) ||
            seq_contains(l, "dns error"@) ||
            seq_contains(l, "network"@) ||
            seq_contains(l, "temporarily unavailable"@) ||
            seq_contains(l, "server error"@))
        }),
{
    let l = lowercase(msg);
    if any_contains(l, retryable_patterns()) {
        let i = choose|i: int| 0 <= i < retryable_patterns().len() && seq_contains(l, #[trigger] retryable_patterns()[i]);
        assert(retryable_patterns().len() == 21);
        if i == 0 {
            assert(retryable_patterns()[0] == "429"@);
        }
        if i == 1 {
            assert(retryable_patterns()[1] == "rate limit"@);
        }
        if i == 2 {
            assert(retryable_patterns()[2] == "rate_limit"@);
        }
        if i == 3 {
            assert(retryable_patterns()[3] == "too many requests"@);
        }
        if i == 4 {
            assert(retryable_patterns()[4] == "500"@);
        }
        if i == 5 {
            assert(retryable_patterns()[5] == "502"@);
        }
        if i == 6 {
            assert(retryable_patterns()[6] == "503"@);
        }
        if i == 7 {
            assert(retryable_patterns()[7] == "529"@);
        }
        if i == 8 {
            assert(retryable_patterns()[8] == "overloaded"@);
        }
        if i == 9 {
            assert(retryable_patterns()[9] == "capacity"@);
        }
        if i == 10 {
            assert(retryable_patterns()[10] == "timeout"@);
        }
        if i == 11 {
            assert(retryable_patterns()[11] == "timed out"@);
        }
        if i == 12 {
            assert(retryable_patterns()[12] == "connection reset"@);
        }
        if i == 13 {
            assert(retryable_patterns()[13] == "connection refused"@);
        }
        if i == 14 {
            assert(retryable_patterns()[14] == "connection closed"@);
        }
        if i == 15 {
            assert(retryable_patterns()[15] == "broken pipe"@);
        }
        if i == 16 {
            assert(retryable_patterns()[16] == "eof"@);
        }
        if i == 17 {
            assert(retryable_patterns()[17] == "dns error"@);
        }
        if i == 18 {
            assert(retryable_patterns()[18] == "network"@);
        }
        if i == 19 {
            assert(retryable_patterns()[19] == "temporarily unavailable"@);
        }
        if i == 20 {
            assert(retryable_patterns()[20] == "server error"@);
        }
    }
}

/// Every rate limit or overload is also a failure that is retried.
pub proof fn law_rate_limits_retried(msg: Seq<char>)
    ensures
        any_contains(lowercase(msg), rate_limit_patterns()) ==> any_contains(lowercase(msg), retryable_patterns()),
{
    let l = lowercase(msg);
    if any_contains(l, rate_limit_patterns()) {
        let i = choose|i: int| 0 <= i < rate_limit_patterns().len() && seq_contains(l, #[trigger] rate_limit_patterns()[i]);
        if rate_limit_patterns()[i] == "429"@ {
            assert(retryable_patterns()[0] == "429"@);
        }
        if rate_limit_patterns()[i] == "rate limit"@ {
            assert(retryable_patterns()[1] == "rate limit"@);
        }
        if rate_limit_patterns()[i] == "rate_limit"@ {
            assert(retryable_patterns()[2] == "rate_limit"@);
        }
        if rate_limit_patterns()[i] == "too many requests"@ {
            assert(retryable_patterns()[3] == "too many requests"@);
        }
        if rate_limit_patterns()[i] == "overloaded"@ {
            assert(retryable_patterns()[8] == "overloaded"@);
        }
        if rate_limit_patterns()[i] == "529"@ {
            assert(retryable_patterns()[7] == "529"@);
        }
    }
}

/// The phrases after which an error message states how long to wait.
pub open spec fn retry_prefixes() -> Seq<Seq<char>> {
    seq!["retry after "@, "retry-after: "@, "try again in "@]
}

/// The leading ASCII digits of `s`.
pub open spec fn digit_run(s: Seq<char>) -> Seq<char>
    decreases s.len(),
{
    if s.len() > 0 && 48 <= (s[0] as u32) && (s[0] as u32) <= 57 {
        seq![s[0]] + digit_run(s.drop_first())
    } else {
        Seq::empty()
    }
}

/// The wait in seconds that a lowercased error message states: the number
/// right after the first of the phrases `ps`, tried in order, whose first
/// occurrence is followed by a number.
pub open spec fn retry_after_in(lower: Seq<char>, ps: Seq<Seq<char>>) -> Option<nat>
    decreases ps.len(),
{
    if ps.len() == 0 {
        None
    } else {
        match seq_find(lower, ps[0]) {
            Some(pos) => match parsed_uint(digit_run(lower.skip(pos + ps[0].len())), u64::MAX as nat) {
                Some(v) => Some(v),
                None => retry_after_in(lower, ps.drop_first()),
            },
            None => retry_after_in(lower, ps.drop_first()),
        }
    }
}

/// The wait that an error message states, in seconds.
pub open spec fn retry_after(msg: Seq<char>) -> Option<nat> {
    retry_after_in(lowercase(msg), retry_prefixes())
}

/// The leading ASCII digits of `s[from..]`.
fn digits_from(s: &[char], from: usize) -> (res: Vec<char>)
    requires
        from <= s@.len(),
    ensures
        res@ == digit_run(s@.skip(from as int)),
    decreases s@.len() - from,
{
    if from < s.len() {
        let c = s[from];
        let v = c as u32;
        if 48 <= v && v <= 57 {
            let rest = digits_from(s, from + 1);
            let mut out: Vec<char> = vec![c];
            let mut r = rest;
            out.append(&mut r);
            proof {
                assert(s@.skip(from as int).drop_first() =~= s@.skip(from + 1));
                assert(s@.skip(from as int)[0] == c);
                assert(out@ =~= seq![c] + rest@);
            }
            out
        } else {
            assert(s@.skip(from as int)[0] == c);
            Vec::new()
        }
    } else {
        assert(s@.skip(from as int).len() == 0);
        Vec::new()
    }
}

/// The wait in seconds that an error message states (`retry after 30`,
/// `retry-after: 60`, `try again in 15 seconds`), if any. The number is
/// read from the lowercased message.
pub fn parse_retry_after(msg: &str) -> (res: Option<u64>)
    ensures
        match res {
            Some(v) => retry_after(msg@) == Some(v as nat),
            None => retry_after(msg@) is None,
        },
{
    let lower = to_lowercase(msg);
    let l = to_chars(lower.as_str());
    let prefixes: Vec<&str> = vec!["retry after ", "retry-after: ", "try again in "];
    let ghost ps = str_views(prefixes@);
    assert(ps =~= retry_prefixes());
    let mut k: usize = 0;
    assert(ps.skip(0) =~= ps);
    while k < prefixes.len()
        invariant
            k <= prefixes@.len(),
            ps == str_views(prefixes@),
            l@ == lowercase(msg@),
            retry_after(msg@) == retry_after_in(l@, ps.skip(k as int)),
        decreases prefixes@.len() - k,
    {
        let p = to_chars(prefixes[k]);
        proof {
            assert(ps.skip(k as int)[0] == p@);
            assert(ps.skip(k as int).drop_first() =~= ps.skip(k + 1));
        }
        match find(l.as_slice(), p.as_slice()) {
            Some(pos) => {
                proof {
                    lemma_find_from(l@, p@, 0);
                }
                let ll = l.len();
                assert(matches_at(l@, p@, pos as int));
                let digits = digits_from(l.as_slice(), pos + p.len());
                match parse_u64(digits.as_slice()) {
                    Some(v) => {
                        return Some(v);
                    },
                    None => {},
                }
            },
            None => {},
        }
        k += 1;
    }
    None
}

/// How long to wait before the next try.
#[derive(Debug, Clone, Copy, PartialEq, Eq, Structural)]
pub enum Delay {
    Seconds(u64),
    Millis(u64),
}

/// The exponential back-off before pressure and jitter: the base delay
/// doubled once per attempt, times one more than the recent rate limits
/// (at most five of them count).
pub open spec fn pressured(base_ms: u64, attempt: u32, consecutive: u64) -> int {
    base_ms * pow2(attempt as nat) * (1 + if consecutive < 5 {
        consecutive as int
    } else {
        5
    })
}

/// The jitter added to a delay `d`: a value in `0..d/4*2` drawn from the
/// attempt and the rate-limit count.
pub open spec fn jitter_of(d: int, attempt: u32, consecutive: u64) -> int {
    let jr = d / 4;
    if jr > 0 {
        (attempt * 7 + consecutive * 13) % (jr * 2)
    } else {
        0
    }
}

/// The back-off in milliseconds: the pressured delay less a quarter, plus
/// the jitter, at most five minutes.
pub open spec fn backoff_ms(base_ms: u64, attempt: u32, consecutive: u64) -> int {
    let d = pressured(base_ms, attempt, consecutive);
    let f = d - d / 4 + jitter_of(d, attempt, consecutive);
    if f < 300000 {
        f
    } else {
        300000
    }
}

/// The back-off can be computed in `u64` without overflow.
pub open spec fn backoff_fits(base_ms: u64, attempt: u32, consecutive: u64) -> bool {
    let d = pressured(base_ms, attempt, consecutive);
    &&& attempt < 64
    &&& base_ms * pow2(attempt as nat) <= u64::MAX
    &&& d <= u64::MAX
    &&& attempt * 7 + consecutive * 13 <= u64::MAX
    &&& d - d / 4 + jitter_of(d, attempt, consecutive) <= u64::MAX
}

proof fn lemma_jitter_bounds(d: int, attempt: u32, consecutive: u64)
    requires
        d >= 0,
    ensures
        d / 4 > 0 ==> 0 <= jitter_of(d, attempt, consecutive) < 2 * (d / 4),
        d / 4 <= 0 ==> jitter_of(d, attempt, consecutive) == 0,
{
    let jr = d / 4;
    if jr > 0 {
        let x = attempt * 7 + consecutive * 13;
        assert(0 <= x % (jr * 2) < jr * 2) by (nonlinear_arith)
            requires
                jr > 0,
                x >= 0,
        ;
    }
}

/// The back-off grows with the attempt: the delay after one more failed
/// attempt is never shorter, for the same pressure of rate limits.
pub proof fn law_backoff_grows(base_ms: u64, attempt: u32, consecutive: u64)
    requires
        attempt < u32::MAX,
    ensures
        backoff_ms(base_ms, attempt, consecutive) <= backoff_ms(base_ms, (attempt + 1) as u32, consecutive),
{
    let a2 = (attempt + 1) as u32;
    let m: int = 1 + if consecutive < 5 {
        consecutive as int
    } else {
        5
    };
    lemma_pow2_unfold(a2 as nat);
    let p = pow2(attempt as nat) as int;
    assert(pow2(a2 as nat) == 2 * p);
    let d = pressured(base_ms, attempt, consecutive);
    let d2 = pressured(base_ms, a2, consecutive);
    assert(d == base_ms * p * m);
    assert(d2 == base_ms * (2 * p) * m);
    assert(d2 == 2 * d && d >= 0) by (nonlinear_arith)
        requires
            d == base_ms * p * m,
            d2 == base_ms * (2 * p) * m,
            base_ms >= 0,
            p >= 0,
            m >= 1,
    ;
    lemma_jitter_bounds(d, attempt, consecutive);
    lemma_jitter_bounds(d2, a2, consecutive);
    let f = d - d / 4 + jitter_of(d, attempt, consecutive);
    let f2 = d2 - d2 / 4 + jitter_of(d2, a2, consecutive);
    assert(f <= f2);
}

/// The delay before the next try after an error: one second more than the
/// wait the error states, if it states one; else the back-off.
pub fn compute_delay(base_delay_ms: u64, attempt: u32, consecutive: u64, msg: &str) -> (res: Delay)
    requires
        match retry_after(msg@) {
            Some(r) => r < u64::MAX,
            None => backoff_fits(base_delay_ms, attempt, consecutive),
        },
    ensures
        match retry_after(msg@) {
            Some(r) => res == Delay::Seconds((r + 1) as u64),
            None => res == Delay::Millis(backoff_ms(base_delay_ms, attempt, consecutive) as u64),
        },
{
    match parse_retry_after(msg) {
        Some(r) => {
            return Delay::Seconds(r + 1);
        },
        None => {},
    }
    proof {
        lemma2_to64();
    }
    let mut p: u64 = 1;
    let mut i: u32 = 0;
    while i < attempt
        invariant
            i <= attempt < 64,
            p as nat == pow2(i as nat),
            pow2(64) == 0x10000000000000000,
        decreases attempt - i,
    {
        proof {
            lemma_pow2_unfold((i + 1) as nat);
            lemma_pow2_strictly_increases((i + 1) as nat, 64);
        }
        p = p * 2;
        i += 1;
    }
    let exp = base_delay_ms * p;
    let pm: u64 = 1 + if consecutive < 5 {
        consecutive
    } else {
        5
    };
    assert(exp * pm == pressured(base_delay_ms, attempt, consecutive));
    let d = exp * pm;
    let jr = d / 4;
    let jitter: u64 = if jr > 0 {
        (attempt as u64 * 7 + consecutive * 13) % (jr * 2)
    } else {
        0
    };
    assert(jitter == jitter_of(d as int, attempt, consecutive));
    let f = d - jr + jitter;
    Delay::Millis(
        if f < 300000 {
            f
        } else {
            300000
        },
    )
}

/// The delay before the next try, as `compute_delay` gives it, or `None`
/// where computing it would overflow.
pub fn checked_delay(base_delay_ms: u64, attempt: u32, consecutive: u64, msg: &str) -> (res: Option<Delay>)
    ensures
        match retry_after(msg@) {
            Some(r) => if r < u64::MAX {
                res == Some(Delay::Seconds((r + 1) as u64))
            } else {
                res is None
            },
            None => if backoff_fits(base_delay_ms, attempt, consecutive) {
                res == Some(Delay::Millis(backoff_ms(base_delay_ms, attempt, consecutive) as u64))
            } else {
                res is None
            },
        },
{
    match parse_retry_after(msg) {
        Some(r) => {
            if r < u64::MAX {
                return Some(compute_delay(base_delay_ms, attempt, consecutive, msg));
            } else {
                return None;
            }
        },
        None => {},
    }
    if attempt >= 64 {
        return None;
    }
    proof {
        lemma2_to64();
    }
    let mut p: u64 = 1;
    let mut i: u32 = 0;
    while i < attempt
        invariant
            i <= attempt < 64,
            p as nat == pow2(i as nat),
            pow2(64) == 0x10000000000000000,
        decreases attempt - i,
    {
        proof {
            lemma_pow2_unfold((i + 1) as nat);
            lemma_pow2_strictly_increases((i + 1) as nat, 64);
        }
        p = p * 2;
        i += 1;
    }
    let exp = match base_delay_ms.checked_mul(p) {
        Some(e) => e,
        None => {
            return None;
        },
    };
    let pm: u64 = 1 + if consecutive < 5 {
        consecutive
    } else {
        5
    };
    let d = match exp.checked_mul(pm) {
        Some(d) => d,
        None => {
            return None;
        },
    };
    assert(d == pressured(base_delay_ms, attempt, consecutive));
    let c13 = match consecutive.checked_mul(13) {
        Some(c) => c,
        None => {
            return None;
        },
    };
    let spread = match (attempt as u64 * 7).checked_add(c13) {
        Some(x) => x,
        None => {
            return None;
        },
    };
    let jr = d / 4;
    let jitter: u64 = if jr > 0 {
        spread % (jr * 2)
    } else {
        0
    };
    assert(jitter == jitter_of(d as int, attempt, consecutive));
    match (d - jr).checked_add(jitter) {
        Some(_) => Some(compute_delay(base_delay_ms, attempt, consecutive, msg)),
        None => None,
    }
}

/// Whether to try again after an error at `attempt` (counted from 0): the
/// error must be retryable and tries must be left.
pub fn should_retry(msg: &str, attempt: u32, max_retries: u32) -> (res: bool)
    ensures
        res == (any_contains(lowercase(msg@), retryable_patterns()) && attempt != max_retries),
{
    is_retryable(msg) && attempt != max_retries
}

/// The rate-limit count after an error: one more (wrapping) when the error
/// is a rate limit.
pub fn count_rate_limit(consecutive: u64, msg: &str) -> (res: u64)
    ensures
        res == if any_contains(lowercase(msg@), rate_limit_patterns()) {
            if consecutive == u64::MAX {
                0
            } else {
                (consecutive + 1) as u64
            }
        } else {
            consecutive
        },
{
    if is_rate_limit(msg) {
        consecutive.wrapping_add(1)
    } else {
        consecutive
    }
}

} // verus!
