//! The regex engine, seen through trusted contracts.
//!
//! Whether a pattern compiles, what the first match captures and how a text
//! splits are all functions of the pattern and the text alone, so each gets
//! a name here; the wrappers promise nothing beyond those names. Each
//! wrapper compiles its pattern afresh: the pattern text is the whole
//! identity of a regex in these contracts.

use vstd::prelude::*;

verus! {

/// Whether the regex engine accepts `pattern`.
pub uninterp spec fn regex_ok(pattern: Seq<char>) -> bool;

/// Every non-overlapping match of `pattern` in `hay`, in order: for each
/// match, the character offset in `hay` where the match starts and the text
/// of its capture group 1 (nothing where group 1 took no part in the match).
pub uninterp spec fn captures_of(pattern: Seq<char>, hay: Seq<char>) -> Seq<
    (int, Option<Seq<char>>),
>;

/// How one returned match is read mathematically.
pub open spec fn capture_pair_view(p: (usize, Option<String>)) -> (int, Option<Seq<char>>) {
    (
        p.0 as int,
        match p.1 {
            Some(s) => Some(s@),
            None => None::<Seq<char>>,
        },
    )
}

/// The substrings of `hay` between successive non-overlapping matches of
/// `pattern`, in order.
pub uninterp spec fn split_of(pattern: Seq<char>, hay: Seq<char>) -> Seq<Seq<char>>;

/// Relies on `regex::Regex::new`: compiling a pattern succeeds or fails on
/// the pattern text alone.
#[verifier::external_body]
pub fn regex_compiles(pattern: &str) -> (r: bool)
    ensures
        r == regex_ok(pattern@),
{
    regex::Regex::new(pattern).is_ok()
}

/// Relies on `regex::Regex::captures_iter` (with `Captures::get` and
/// `Match::as_str`): every non-overlapping match of the pattern, leftmost
/// first, with the text of its capture group 1; a function of the pattern
/// and the haystack alone. The match's byte position in the haystack (also a
/// function of those two) is re-expressed as a character offset, and each
/// match starts inside the haystack, so every offset is at most its length.
#[verifier::external_body]
pub fn capture_all(pattern: &str, hay: &str) -> (r: Vec<(usize, Option<String>)>)
    requires
        regex_ok(pattern@),
    ensures
        r@.map_values(|p: (usize, Option<String>)| capture_pair_view(p)) == captures_of(
            pattern@,
            hay@,
        ),
        forall|i: int| 0 <= i < r@.len() ==> (#[trigger] r@[i]).0 <= hay@.len(),
{
    match regex::Regex::new(pattern) {
        Ok(re) => re
            .captures_iter(hay)
            .map(|caps| {
                let start = caps.get(0).map_or(0, |m| m.start());
                let offset = hay[..start].chars().count();
                (offset, caps.get(1).map(|m| m.as_str().to_string()))
            })
            .collect(),
        Err(_) => Vec::new(),
    }
}

/// Relies on `regex::Regex::split`: the substrings between matches depend on
/// the pattern and the haystack alone.
#[verifier::external_body]
pub fn split_with(pattern: &str, hay: &str) -> (r: Vec<String>)
    requires
        regex_ok(pattern@),
    ensures
        r@.map_values(|s: String| s@) == split_of(pattern@, hay@),
{
    match regex::Regex::new(pattern) {
        Ok(re) => re.split(hay).map(|piece| piece.to_string()).collect(),
        Err(_) => Vec::new(),
    }
}

} // verus!
