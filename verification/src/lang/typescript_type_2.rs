//! The data a TypeScript type (second flavour) module is rendered from.

use vstd::prelude::*;
use crate::class_set::ClassSet;

verus! {

/// What a TypeScript type (second flavour) module is rendered from.
pub struct TypescriptType2Template {
    pub classes: Vec<String>,
}

impl TypescriptType2Template {
    /// Gathers the classes to render; the output location plays no part.
    pub fn new(output_directory: &str, output_filename: &str, classes: &ClassSet) -> (r: TypescriptType2Template)
        ensures
            r.classes@.map_values(|s: String| s@) == classes.names(),
    {
        let _ = output_directory;
        let _ = output_filename;
        TypescriptType2Template { classes: classes.to_vec() }
    }
}

} // verus!
