//! The data a TypeScript type (first flavour) module is rendered from.

use vstd::prelude::*;
use crate::class_set::ClassSet;

verus! {

/// What a TypeScript type (first flavour) module is rendered from.
pub struct TypescriptType1Template {
    pub classes: Vec<String>,
}

impl TypescriptType1Template {
    /// Gathers the classes to render; the output location plays no part.
    pub fn new(output_directory: &str, output_filename: &str, classes: &ClassSet) -> (r: TypescriptType1Template)
        ensures
            r.classes@.map_values(|s: String| s@) == classes.names(),
    {
        let _ = output_directory;
        let _ = output_filename;
        TypescriptType1Template { classes: classes.to_vec() }
    }
}

} // verus!
