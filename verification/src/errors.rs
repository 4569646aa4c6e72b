//! Errors of the class-extraction side of the library.

use vstd::prelude::*;

verus! {

/// Failure of extracting class names from CSS text.
#[derive(Debug, Clone, Copy, PartialEq, Eq, Structural)]
pub enum Error {
    /// The stylesheet holds no class selector at all.
    NoCssClassesFound,
}

impl Error {
    /// A human-readable account of the failure.
    pub fn message(&self) -> (r: String)
        ensures
            r@ == ("no css classes found in the provided css source")@,
    {
        let m = "no css classes found in the provided css source";
        m.to_owned()
    }
}

} // verus!
