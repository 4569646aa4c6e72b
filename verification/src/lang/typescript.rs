//! The data a TypeScript module is rendered from.

use vstd::prelude::*;
use crate::class_set::ClassSet;

verus! {

/// What a TypeScript module is rendered from.
pub struct TypescriptTemplate {
    pub classes: Vec<String>,
}

impl TypescriptTemplate {
    /// Gathers the classes to render; the output location plays no part.
    pub fn new(output_directory: &str, output_filename: &str, classes: &ClassSet) -> (r: TypescriptTemplate)
        ensures
            r.classes@.map_values(|s: String| s@) == classes.names(),
    {
        let _ = output_directory;
        let _ = output_filename;
        TypescriptTemplate { classes: classes.to_vec() }
    }
}

} // verus!
