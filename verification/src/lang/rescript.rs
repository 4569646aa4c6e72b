//! The data the ReScript implementation and interface files are rendered
//! from.

use vstd::prelude::*;
use crate::class_set::ClassSet;

verus! {

/// What the ReScript implementation file is rendered from.
pub struct RescriptTemplate {
    pub classes: Vec<String>,
}

impl RescriptTemplate {
    /// Gathers the classes to render; the output location plays no part.
    pub fn new(output_directory: &str, output_filename: &str, classes: &ClassSet) -> (r:
        RescriptTemplate)
        ensures
            r.classes@.map_values(|s: String| s@) == classes.names(),
    {
        let _ = output_directory;
        let _ = output_filename;
        RescriptTemplate { classes: classes.to_vec() }
    }
}

/// What the ReScript interface file is rendered from.
pub struct RescriptiTemplate {
    pub classes: Vec<String>,
}

impl RescriptiTemplate {
    /// Gathers the classes to render; the output location plays no part.
    pub fn new(output_directory: &str, output_filename: &str, classes: &ClassSet) -> (r:
        RescriptiTemplate)
        ensures
            r.classes@.map_values(|s: String| s@) == classes.names(),
    {
        let _ = output_directory;
        let _ = output_filename;
        RescriptiTemplate { classes: classes.to_vec() }
    }
}

} // verus!
