use pyaco::lang::{Lang, name, generate_module_name};
use pyaco::generate::output_paths;
use pyaco::{ClassSet, ElmTemplate, PurescriptTemplate, RescriptTemplate, RustTemplate};

#[test]
fn language_names_parse() {
    assert!(matches!(Lang::from_name("elm"), Ok(Lang::Elm)));
    assert!(matches!(Lang::from_name("purescript"), Ok(Lang::Purescript)));
    assert!(matches!(Lang::from_name("rescript"), Ok(Lang::Rescript)));
    assert!(matches!(Lang::from_name("rescript-type"), Ok(Lang::RescriptType)));
    assert!(matches!(Lang::from_name("typescript"), Ok(Lang::Typescript)));
    assert!(matches!(Lang::from_name("typescript-type-1"), Ok(Lang::TypescriptType1)));
    assert!(matches!(Lang::from_name("typescript-type-2"), Ok(Lang::TypescriptType2)));
    assert!(Lang::from_name("cobol").is_err());
}

#[test]
fn module_names_follow_the_output_directory() {
    assert_eq!(generate_module_name("src/generated", "Css"), "src.generated.Css");
    assert_eq!(generate_module_name("./src/generated", "Css"), "src.generated.Css");
    assert_eq!(generate_module_name("", "Css"), "Css");
    assert_eq!(generate_module_name("/", "Css"), "Css");
}

#[test]
fn class_names_render_as_camel_case_identifiers() {
    assert_eq!(name("foo-bar"), "fooBar");
    assert_eq!(name("1/2"), "oneOver2");
    assert_eq!(name("btn"), "btn");
}

#[test]
fn templates_carry_the_classes_and_module_name() {
    let mut classes = ClassSet::new();
    classes.insert("btn".to_string());
    classes.insert("btn-primary".to_string());
    let elm = ElmTemplate::new("src/generated", "Css", &classes);
    assert_eq!(elm.module_name, "src.generated.Css");
    assert_eq!(elm.classes, vec!["btn".to_string(), "btn-primary".to_string()]);
    let purs = PurescriptTemplate::new("src/generated", "Css", &classes);
    assert_eq!(purs.module_name, "src.generated.Css");
    let rescript = RescriptTemplate::new("out", "css", &classes);
    assert_eq!(rescript.classes.len(), 2);
    let rust = RustTemplate::new("out", "css", &classes);
    assert_eq!(rust.classes.len(), 2);
}

#[test]
fn each_language_writes_its_output_files() {
    assert_eq!(output_paths(Lang::Elm, "out", "styles"), vec!["out/styles.elm".to_string()]);
    assert_eq!(
        output_paths(Lang::Rescript, "out", "styles"),
        vec!["out/styles.res".to_string(), "out/styles.resi".to_string()]
    );
    assert_eq!(output_paths(Lang::TypescriptType2, "out", "styles"), vec![
        "out/styles.ts".to_string()
    ]);
}
