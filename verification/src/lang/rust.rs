//! The data a Rust module is rendered from.

use vstd::prelude::*;
use crate::class_set::ClassSet;

verus! {

/// What a Rust module is rendered from.
pub struct RustTemplate {
    pub classes: Vec<String>,
}

impl RustTemplate {
    /// Gathers the classes to render; the output location plays no part.
    pub fn new(output_directory: &str, output_filename: &str, classes: &ClassSet) -> (r: RustTemplate)
        ensures
            r.classes@.map_values(|s: String| s@) == classes.names(),
    {
        let _ = output_directory;
        let _ = output_filename;
        RustTemplate { classes: classes.to_vec() }
    }
}

} // verus!
