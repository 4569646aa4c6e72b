use pyaco::escape_class_name;
use pyaco::css;
use pyaco::ClassSet;

#[test]
fn test_simple_cases() {
    assert_eq!(escape_class_name("foo"), "foo");
    assert_eq!(escape_class_name("foo_bar"), "foo_bar");
    assert_eq!(escape_class_name("f42"), "f42");
}

#[test]
fn test_first_letter_is_alpha() {
    assert_eq!(escape_class_name("foo"), "foo");
    assert_eq!(escape_class_name("1foo_bar"), "one_foo_bar");
    assert_eq!(escape_class_name("-foo"), "neg_foo");
}

#[test]
fn test_smart_conversion() {
    assert_eq!(escape_class_name("foo:-bar"), "foo_neg_bar");
    assert_eq!(escape_class_name("foo/bar"), "foo_over_bar");
}

#[test]
fn test_lower_case() {
    assert_eq!(escape_class_name("foo"), "foo");
    assert_eq!(escape_class_name("fOO"), "foo");
    assert_eq!(escape_class_name("fOO_bAR"), "foo_bar");
}

#[test]
fn test_escape_special_characters() {
    assert_eq!(escape_class_name("foo#"), "foo_");
    assert_eq!(escape_class_name("foo@"), "foo_");
    assert_eq!(escape_class_name("foo!"), "foo_");
}

fn tailwind_like_set() -> ClassSet {
    let mut accepted = ClassSet::new();
    accepted.insert("rounded".to_string());
    accepted.insert("md:slashed-zero".to_string());
    accepted.insert("stacked-fractions".to_string());
    accepted.insert("space-y-60".to_string());
    accepted.insert("p-2".to_string());
    accepted.insert("m-4".to_string());
    accepted.insert("sr-only".to_string());
    accepted.insert("hover:-translate-x-0.5".to_string());
    accepted
}

#[test]
fn it_cleans_and_validate_class_names() {
    let accepted = tailwind_like_set();
    assert_eq!(
        css("rounded  md:slashed-zero  stacked-fractions space-y-60  ", &accepted).unwrap(),
        "rounded md:slashed-zero stacked-fractions space-y-60"
    );
    assert_eq!(css("rounded    ", &accepted).unwrap(), "rounded");
    assert_eq!(css("rounded   rounded ", &accepted).unwrap(), "rounded");
    assert_eq!(css("p-2  m-4 ", &accepted).unwrap(), "p-2 m-4");
    assert_eq!(css("  sr-only", &accepted).unwrap(), "sr-only");
    assert_eq!(
        css(" rounded p-2     hover:-translate-x-0.5   ", &accepted).unwrap(),
        "rounded p-2 hover:-translate-x-0.5"
    );
}

#[test]
fn css_rejects_an_unknown_class() {
    let accepted = tailwind_like_set();
    assert_eq!(css("rounded btn-danger", &accepted), Err("btn-danger".to_string()));
}

#[test]
fn resolve_path_joins_directory_filename_and_extension() {
    assert_eq!(pyaco::resolve_path("./out", "styles", "elm"), "./out/styles.elm");
    assert_eq!(pyaco::resolve_path("out/", "styles", "purs"), "out/styles.purs");
    assert_eq!(pyaco::resolve_path("", "styles", "res"), "styles.res");
    assert_eq!(pyaco::resolve_path("out", "/abs/styles", "ts"), "/abs/styles.ts");
}
