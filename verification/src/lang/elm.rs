//! The data an Elm module is rendered from.

use vstd::prelude::*;
use crate::class_set::ClassSet;
use super::{generate_module_name, spec_module_name};

verus! {

/// What an Elm module is rendered from: its name and the classes.
pub struct ElmTemplate {
    pub classes: Vec<String>,
    pub module_name: String,
}

impl ElmTemplate {
    /// Gathers the template data: the module name derived from the output
    /// location, and the classes to render.
    pub fn new(output_directory: &str, output_filename: &str, classes: &ClassSet) -> (r:
        ElmTemplate)
        ensures
            r.module_name@ == spec_module_name(output_directory@, output_filename@),
            r.classes@.map_values(|s: String| s@) == classes.names(),
    {
        let module_name = generate_module_name(output_directory, output_filename);
        ElmTemplate { classes: classes.to_vec(), module_name }
    }
}

} // verus!
