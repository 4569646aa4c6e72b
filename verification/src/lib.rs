//! Validates class-name usage in source files against the set of class names
//! declared by a CSS stylesheet.
//!
//! The library extracts the accepted class names from CSS text, scans source
//! files with a configurable capture/split regex pair, reports every class
//! token that is not in the accepted set, and drives a bounded-concurrency
//! scan scheduler and a debounced watch loop through explicit, verified state
//! machines.

pub mod class_set;
pub mod classes_parser;
pub mod cli;
pub mod errors;
pub mod generate;
pub mod input;
pub mod lang;
pub mod regexes;
pub mod scheduler;
pub mod sink;
pub mod text;
pub mod unicode;
pub mod utils;
pub mod validate;
pub mod watch;

pub use class_set::ClassSet;
pub use classes_parser::ClassesParser;
pub use classes_parser::extract_classes_from_text;
pub use errors::Error;
pub use input::InputType;
pub use lang::Lang;
pub use lang::ElmTemplate;
pub use lang::PurescriptTemplate;
pub use lang::RescriptTemplate;
pub use lang::RescriptiTemplate;
pub use lang::RescriptTypeTemplate;
pub use lang::RustTemplate;
pub use lang::TypescriptTemplate;
pub use lang::TypescriptType1Template;
pub use lang::TypescriptType2Template;
pub use lang::generate_module_name;
pub use utils::escape_class_name;
pub use utils::resolve_path;
pub use utils::css;
