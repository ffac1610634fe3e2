//! Regular expressions, through the `regex` crate.
use vstd::prelude::*;

verus! {

/// What `regex::Regex::new(pattern)` and then `is_match(text)` give: none
/// when the pattern does not compile, else whether it matches somewhere in
/// the text.
pub uninterp spec fn regex_verdict(pattern: Seq<char>, text: Seq<char>) -> Option<bool>;

/// Compiles `pattern` with `regex::Regex::new` and asks `Regex::is_match`
/// whether it matches `text`; none when the pattern is invalid. Its result
/// is the name `regex_verdict` of the pattern and the text; what the regex
/// engine matches is not stated here.
#[verifier::external_body]
pub(crate) fn regex_is_match(pattern: &str, text: &str) -> (res: Option<bool>)
    ensures
        res == regex_verdict(pattern@, text@),
{
    match regex::Regex::new(pattern) {
        Ok(re) => Some(re.is_match(text)),
        Err(_) => None,
    }
}

/// What `regex::Regex::new(pattern)` and then `find_iter(text).count()`
/// give: none when the pattern does not compile, else the number of
/// non-overlapping matches in the text.
pub uninterp spec fn regex_count(pattern: Seq<char>, text: Seq<char>) -> Option<nat>;

/// Compiles `pattern` with `regex::Regex::new` and counts the matches that
/// `Regex::find_iter` yields in `text`; none when the pattern is invalid.
/// Its result is the name `regex_count` of the pattern and the text.
#[verifier::external_body]
pub(crate) fn regex_match_count(pattern: &str, text: &str) -> (res: Option<usize>)
    ensures
        match res {
            Some(n) => regex_count(pattern@, text@) == Some(n as nat),
            None => regex_count(pattern@, text@) is None,
        },
{
    match regex::Regex::new(pattern) {
        Ok(re) => Some(re.find_iter(text).count()),
        Err(_) => None,
    }
}

/// What `regex::Regex::new(pattern)` and then `captures_iter(text)` give,
/// each match taken to the text of its capture group `group`: none when the
/// pattern does not compile, else per match, in order, the group's text or
/// none when the group took no part in the match.
pub uninterp spec fn regex_group_list(pattern: Seq<char>, text: Seq<char>, group: nat) -> Option<Seq<Option<Seq<char>>>>;

/// Compiles `pattern` with `regex::Regex::new` and walks the matches that
/// `Regex::captures_iter` yields in `text`, taking of each the text of
/// capture group `group` (`Captures::get`); none when the pattern is
/// invalid. Its result is the name `regex_group_list` of the pattern, the
/// text and the group.
#[verifier::external_body]
pub(crate) fn regex_all_captures(pattern: &str, text: &str, group: usize) -> (res: Option<Vec<Option<String>>>)
    ensures
        match res {
            Some(v) => regex_group_list(pattern@, text@, group as nat) == Some(
                v@.map_values(|g: Option<String>| crate::dup::opt_view(g)),
            ),
            None => regex_group_list(pattern@, text@, group as nat) is None,
        },
{
    let re = match regex::Regex::new(pattern) {
        Ok(re) => re,
        Err(_) => return None,
    };
    let mut out = Vec::new();
    for c in re.captures_iter(text) {
        out.push(match c.get(group) {
            Some(m) => Some(m.as_str().to_string()),
            None => None,
        });
    }
    Some(out)
}

} // verus!
