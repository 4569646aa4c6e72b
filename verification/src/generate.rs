//! Code generation: what a run is asked to do, and which output files a
//! language writes. Rendering and the writes themselves happen outside the
//! library; the decisions stand here.

use vstd::prelude::*;
use crate::lang::Lang;
use crate::utils::{resolve_path, spec_resolve_path};

verus! {

/// What a code-generation run is asked to do.
#[derive(Debug, Clone)]
pub struct Options {
    /// CSS file path or URL to parse and generate code from.
    pub input: String,
    /// Directory for generated code.
    pub output_directory: String,
    /// Filename, without extension, of the generated code.
    pub output_filename: String,
    /// Language of the generated code.
    pub lang: Lang,
    /// Watch the CSS file and regenerate on change.
    pub watch: bool,
}

/// The file extensions a language's templates write, in order; ReScript
/// writes an implementation and an interface file.
pub open spec fn spec_extensions(lang: Lang) -> Seq<Seq<char>> {
    match lang {
        Lang::Elm => seq![("elm")@],
        Lang::Purescript => seq![("purs")@],
        Lang::Rescript => seq![("res")@, ("resi")@],
        Lang::RescriptType => seq![("res")@],
        Lang::Typescript => seq![("ts")@],
        Lang::TypescriptType1 => seq![("ts")@],
        Lang::TypescriptType2 => seq![("ts")@],
    }
}

/// The paths of the files a generation run writes for `lang`, in order.
pub fn output_paths(lang: Lang, output_directory: &str, output_filename: &str) -> (r: Vec<String>)
    ensures
        r@.map_values(|s: String| s@) == spec_extensions(lang).map_values(
            |e: Seq<char>| spec_resolve_path(output_directory@, output_filename@, e),
        ),
{
    let mut out: Vec<String> = Vec::new();
    match lang {
        Lang::Elm => {
            out.push(resolve_path(output_directory, output_filename, "elm"));
        }
        Lang::Purescript => {
            out.push(resolve_path(output_directory, output_filename, "purs"));
        }
        Lang::Rescript => {
            out.push(resolve_path(output_directory, output_filename, "res"));
            out.push(resolve_path(output_directory, output_filename, "resi"));
        }
        Lang::RescriptType => {
            out.push(resolve_path(output_directory, output_filename, "res"));
        }
        Lang::Typescript => {
            out.push(resolve_path(output_directory, output_filename, "ts"));
        }
        Lang::TypescriptType1 => {
            out.push(resolve_path(output_directory, output_filename, "ts"));
        }
        Lang::TypescriptType2 => {
            out.push(resolve_path(output_directory, output_filename, "ts"));
        }
    }
    proof {
        assert(out@.map_values(|s: String| s@) =~= spec_extensions(lang).map_values(
            |e: Seq<char>| spec_resolve_path(output_directory@, output_filename@, e),
        ));
    }
    out
}

} // verus!
