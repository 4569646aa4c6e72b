use pyaco::extract_classes_from_text;
use pyaco::errors::Error;

#[test]
fn extracts_class_selectors_from_rule_preludes() {
    let classes = extract_classes_from_text(
        ".btn { color: red }\n.btn-primary:hover, a.link { margin: .5em }\n",
    )
    .unwrap();
    assert_eq!(classes.len(), 3);
    assert!(classes.contains("btn"));
    assert!(classes.contains("btn-primary"));
    assert!(classes.contains("link"));
}

#[test]
fn recurses_one_level_into_media_blocks() {
    let classes = extract_classes_from_text(
        ".outer { }\n@media (min-width: 600px) { .inner { color: blue } }\n@supports (display: grid) { .skipped { } }\n",
    )
    .unwrap();
    assert!(classes.contains("outer"));
    assert!(classes.contains("inner"));
    assert!(!classes.contains("skipped"));
}

#[test]
fn ignores_comments_strings_and_rule_bodies() {
    let classes = extract_classes_from_text(
        "/* .commented */ .real { background: url(\".fake\") }\n[data-x=\".quoted\"] .near { }\n",
    )
    .unwrap();
    assert!(classes.contains("real"));
    assert!(classes.contains("near"));
    assert!(!classes.contains("commented"));
    assert!(!classes.contains("fake"));
    assert!(!classes.contains("quoted"));
}

#[test]
fn deduplicates_and_reads_escapes() {
    let classes = extract_classes_from_text(".a {} .a {} .md\\:x {}").unwrap();
    assert_eq!(classes.len(), 2);
    assert!(classes.contains("a"));
    assert!(classes.contains("md:x"));
}

#[test]
fn fails_on_css_without_class_selectors() {
    assert!(matches!(
        extract_classes_from_text("body { margin: 0 } #id { color: red }"),
        Err(Error::NoCssClassesFound)
    ));
    assert!(matches!(extract_classes_from_text(""), Err(Error::NoCssClassesFound)));
}

#[test]
fn number_tokens_are_not_classes() {
    assert!(matches!(
        extract_classes_from_text("p { margin: .5em } div { top: .25px }"),
        Err(Error::NoCssClassesFound)
    ));
}
