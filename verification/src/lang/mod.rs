//! The target languages of code generation, and what their templates share:
//! the module name derived from the output location, and the camel-cased
//! identifier a class name renders as.

use vstd::prelude::*;
use crate::text::{str_eq, to_chars, chars_to_string, split_char, spec_split_char, append_chars};
use crate::utils::{escape_class_name, spec_escape_class_name};

pub mod elm;
pub mod purescript;
pub mod rescript;
pub mod rescript_type;
pub mod rust;
pub mod typescript;
pub mod typescript_type_1;
pub mod typescript_type_2;

pub use elm::ElmTemplate;
pub use purescript::PurescriptTemplate;
pub use rescript::RescriptTemplate;
pub use rescript::RescriptiTemplate;
pub use rescript_type::RescriptTypeTemplate;
pub use rust::RustTemplate;
pub use typescript::TypescriptTemplate;
pub use typescript_type_1::TypescriptType1Template;
pub use typescript_type_2::TypescriptType2Template;

verus! {

/// A language that code can be generated for.
#[derive(Debug, Clone, Copy, PartialEq, Eq, Structural)]
pub enum Lang {
    Elm,
    Purescript,
    Rescript,
    RescriptType,
    Typescript,
    TypescriptType1,
    TypescriptType2,
}

/// Which language a command-line name stands for.
pub open spec fn spec_lang_of(s: Seq<char>) -> Option<Lang> {
    if s == ("elm")@ {
        Some(Lang::Elm)
    } else if s == ("purescript")@ {
        Some(Lang::Purescript)
    } else if s == ("rescript")@ {
        Some(Lang::Rescript)
    } else if s == ("rescript-type")@ {
        Some(Lang::RescriptType)
    } else if s == ("typescript")@ {
        Some(Lang::Typescript)
    } else if s == ("typescript-type-1")@ {
        Some(Lang::TypescriptType1)
    } else if s == ("typescript-type-2")@ {
        Some(Lang::TypescriptType2)
    } else {
        None
    }
}

impl Lang {
    /// Parses the command-line name of a language; an unknown name comes
    /// back in an error message that also lists the valid names.
    pub fn from_name(s: &str) -> (r: Result<Lang, String>)
        ensures
            match r {
                Ok(l) => spec_lang_of(s@) == Some(l),
                Err(m) => spec_lang_of(s@) is None && m@ == s@ + (
                " is not a valid lang, should be one of (elm|purescript|rescript|rescript-type|typescript|typescript-type-1|typescript-type-2)")@,
            },
    {
        if str_eq(s, "elm") {
            Ok(Lang::Elm)
        } else if str_eq(s, "purescript") {
            Ok(Lang::Purescript)
        } else if str_eq(s, "rescript") {
            Ok(Lang::Rescript)
        } else if str_eq(s, "rescript-type") {
            Ok(Lang::RescriptType)
        } else if str_eq(s, "typescript") {
            Ok(Lang::Typescript)
        } else if str_eq(s, "typescript-type-1") {
            Ok(Lang::TypescriptType1)
        } else if str_eq(s, "typescript-type-2") {
            Ok(Lang::TypescriptType2)
        } else {
            let mut msg = s.to_owned();
            msg.append(
                " is not a valid lang, should be one of (elm|purescript|rescript|rescript-type|typescript|typescript-type-1|typescript-type-2)",
            );
            Err(msg)
        }
    }
}

impl core::str::FromStr for Lang {
    type Err = String;

    fn from_str(s: &str) -> Result<Lang, String> {
        Lang::from_name(s)
    }
}

/// A path segment that contributes to a module name: non-empty, and not a
/// relative-path marker.
pub open spec fn spec_is_normal_part(p: Seq<char>) -> bool {
    p.len() > 0 && p != seq!['.'] && p != seq!['.', '.']
}

/// How the segments of the output directory fold into the module-name
/// base, dot-separated.
pub open spec fn spec_fold_parts(acc: Seq<char>, segs: Seq<Seq<char>>) -> Seq<char>
    decreases segs.len(),
{
    if segs.len() == 0 {
        acc
    } else {
        let p = segs[0];
        let acc2 = if spec_is_normal_part(p) {
            if acc.len() == 0 {
                p
            } else {
                acc + seq!['.'] + p
            }
        } else {
            acc
        };
        spec_fold_parts(acc2, segs.drop_first())
    }
}

/// The module name that an output directory and filename yield: the
/// directory's real segments joined by dots, then the filename; a rootless
/// directory leaves the filename alone.
pub open spec fn spec_module_name(dir: Seq<char>, file: Seq<char>) -> Seq<char> {
    let base = spec_fold_parts(Seq::empty(), spec_split_char(dir, '/'));
    if base.len() == 0 {
        file
    } else {
        base + seq!['.'] + file
    }
}

/// Derives the module name used in generated code from the output
/// directory and filename.
pub fn generate_module_name(output_directory: &str, output_filename: &str) -> (r: String)
    ensures
        r@ == spec_module_name(output_directory@, output_filename@),
{
    let d = to_chars(output_directory);
    let segs = split_char(&d, '/');
    let ghost sv = segs@.map_values(|s: Vec<char>| s@);
    let mut acc: Vec<char> = Vec::new();
    let n = segs.len();
    let mut i: usize = 0;
    proof {
        assert(sv.skip(0) =~= sv);
    }
    while i < n
        invariant
            n == segs@.len(),
            sv == segs@.map_values(|s: Vec<char>| s@),
            0 <= i <= n,
            spec_fold_parts(Seq::empty(), sv) == spec_fold_parts(acc@, sv.skip(i as int)),
        decreases n - i,
    {
        let p = &segs[i];
        let is_dot = p.len() == 1 && p[0] == '.';
        let is_dotdot = p.len() == 2 && p[0] == '.' && p[1] == '.';
        let normal = p.len() > 0 && !is_dot && !is_dotdot;
        proof {
            if is_dot {
                assert(p@ =~= seq!['.']);
            }
            if is_dotdot {
                assert(p@ =~= seq!['.', '.']);
            }
            if p@ == seq!['.'] {
                assert(p@.len() == 1 && p@[0] == '.');
            }
            if p@ == seq!['.', '.'] {
                assert(p@.len() == 2 && p@[0] == '.' && p@[1] == '.');
            }
            assert(normal == spec_is_normal_part(sv[i as int]));
            let rest = sv.skip(i as int);
            assert(rest[0] == sv[i as int]);
            assert(rest.drop_first() =~= sv.skip(i + 1 as int));
        }
        if normal {
            let ghost acc_before = acc@;
            if acc.len() > 0 {
                acc.push('.');
            }
            append_chars(&mut acc, p);
            proof {
                if acc_before.len() == 0 {
                    assert(acc@ =~= sv[i as int]);
                } else {
                    assert(acc@ =~= acc_before + seq!['.'] + sv[i as int]);
                }
            }
        }
        i += 1;
    }
    proof {
        assert(sv.skip(n as int) =~= Seq::<Seq<char>>::empty());
    }
    if acc.len() == 0 {
        output_filename.to_owned()
    } else {
        acc.push('.');
        let f = to_chars(output_filename);
        append_chars(&mut acc, &f);
        proof {
            let base = spec_fold_parts(Seq::empty(), sv);
            assert(acc@ =~= base + seq!['.'] + output_filename@);
        }
        chars_to_string(&acc)
    }
}

/// The camel-cased form of an identifier.
pub uninterp spec fn camel_of(s: Seq<char>) -> Seq<char>;

/// Relies on `convert_case::Casing::to_case` with `Case::Camel`: the result
/// depends on the input string alone.
#[verifier::external_body]
fn to_camel_case(s: &str) -> (r: String)
    ensures
        r@ == camel_of(s@),
{
    convert_case::Casing::to_case(&s, convert_case::Case::Camel)
}

/// The identifier a class renders as: the class escaped, then camel-cased.
pub fn name(class: &str) -> (r: String)
    ensures
        r@ == camel_of(spec_escape_class_name(class@)),
{
    let escaped = escape_class_name(class);
    to_camel_case(escaped.as_str())
}

} // verus!
