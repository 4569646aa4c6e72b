//! The data a ReScript type module is rendered from.

use vstd::prelude::*;
use crate::class_set::ClassSet;

verus! {

/// What a ReScript type module is rendered from.
pub struct RescriptTypeTemplate {
    pub classes: Vec<String>,
}

impl RescriptTypeTemplate {
    /// Gathers the classes to render; the output location plays no part.
    pub fn new(output_directory: &str, output_filename: &str, classes: &ClassSet) -> (r: RescriptTypeTemplate)
        ensures
            r.classes@.map_values(|s: String| s@) == classes.names(),
    {
        let _ = output_directory;
        let _ = output_filename;
        RescriptTypeTemplate { classes: classes.to_vec() }
    }
}

} // verus!
