//! Unicode character classification and case folding, seen through trusted
//! contracts. Each result depends on the character or string alone, so each
//! gets a name; what the tables hold is not written out here.

use vstd::prelude::*;

verus! {

/// Whether `c` is alphabetic.
pub uninterp spec fn is_alpha(c: char) -> bool;

/// Whether `c` is alphanumeric.
pub uninterp spec fn is_alnum(c: char) -> bool;

/// Whether `c` is lowercase.
pub uninterp spec fn is_lower(c: char) -> bool;

/// Whether `c` is whitespace.
pub uninterp spec fn is_space(c: char) -> bool;

/// The lowercase form of a string.
pub uninterp spec fn lower_of(s: Seq<char>) -> Seq<char>;

/// Relies on `char::is_alphabetic`: the Alphabetic property of a character.
pub assume_specification[ char::is_alphabetic ](c: char) -> (r: bool)
    ensures
        r == is_alpha(c),
;

/// Relies on `char::is_alphanumeric`: whether a character is a letter or a
/// number.
pub assume_specification[ char::is_alphanumeric ](c: char) -> (r: bool)
    ensures
        r == is_alnum(c),
;

/// Relies on `char::is_lowercase`: the Lowercase property of a character.
pub assume_specification[ char::is_lowercase ](c: char) -> (r: bool)
    ensures
        r == is_lower(c),
;

/// Relies on `char::is_whitespace`: the White_Space property of a
/// character.
pub assume_specification[ char::is_whitespace ](c: char) -> (r: bool)
    ensures
        r == is_space(c),
;

/// Relies on `str::to_lowercase`: the result depends on the characters
/// alone, and an empty string stays empty.
#[verifier::external_body]
pub fn lowercase(s: &str) -> (r: String)
    ensures
        r@ == lower_of(s@),
        s@.len() == 0 ==> r@.len() == 0,
{
    s.to_lowercase()
}

} // verus!
