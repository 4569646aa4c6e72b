//! Where the accepted classes come from: a local file or a URL.

use vstd::prelude::*;

verus! {

/// Whether the glob engine accepts `pattern`.
pub uninterp spec fn glob_ok(pattern: Seq<char>) -> bool;

/// Relies on `glob::Pattern::new`: whether a glob pattern parses depends on
/// the pattern text alone.
#[verifier::external_body]
pub fn glob_pattern_compiles(pattern: &str) -> (r: bool)
    ensures
        r == glob_ok(pattern@),
{
    glob::Pattern::new(pattern).is_ok()
}

/// Whether `s` parses as an absolute URL.
pub uninterp spec fn url_ok(s: Seq<char>) -> bool;

/// Relies on `url::Url::parse`: whether a string parses as an absolute URL
/// depends on the string alone.
#[verifier::external_body]
pub fn url_parses(s: &str) -> (r: bool)
    ensures
        r == url_ok(s@),
{
    url::Url::parse(s).is_ok()
}

/// The source of the accepted classes: CSS on disk, or CSS behind a URL.
/// Only a local path can be watched.
#[derive(Debug, Clone)]
pub enum InputType {
    Path(String),
    Url(String),
}

impl InputType {
    /// Classifies an input string: whatever parses as a URL is a URL, the
    /// rest is a path.
    pub fn from_path(input: &str) -> (r: InputType)
        ensures
            match r {
                InputType::Url(u) => url_ok(input@) && u@ == input@,
                InputType::Path(p) => !url_ok(input@) && p@ == input@,
            },
    {
        if url_parses(input) {
            InputType::Url(input.to_owned())
        } else {
            InputType::Path(input.to_owned())
        }
    }
}

} // verus!
