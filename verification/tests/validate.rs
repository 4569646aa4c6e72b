use pyaco::validate::{
    CaptureConfig,
    Error,
    FileErrorKind,
    FileInput,
    classify_open_error,
    report_unknown_classes,
    run_validation,
    validate_files,
};
use pyaco::ClassSet;

const CAPTURE: &str = "class=\"([^\"]+)\"";
const SPLIT: &str = "\\s+";

fn config() -> CaptureConfig {
    CaptureConfig::new(CAPTURE.to_string(), SPLIT.to_string()).unwrap()
}

fn set_of(names: &[&str]) -> ClassSet {
    let mut out = ClassSet::new();
    for name in names {
        out.insert(name.to_string());
    }
    out
}

#[test]
fn accepted_usage_yields_no_events() {
    let cfg = config();
    let accepted = set_of(&["btn", "btn-primary"]);
    let files = vec![FileInput {
        path: "index.html".to_string(),
        content: Some("<div class=\"btn btn-primary\"></div>\n".to_string()),
    }];
    let outcome = validate_files(&cfg, &accepted, &files);
    assert!(outcome.valid);
    assert_eq!(outcome.events.len(), 0);
}

#[test]
fn unknown_class_is_reported_with_its_line() {
    let cfg = config();
    let accepted = set_of(&["btn"]);
    let content = "<html>\n<body>\n<div class=\"btn btn-danger\"></div>\n</body>\n";
    let events = report_unknown_classes(&cfg, &accepted, "page.html", content);
    assert_eq!(events.len(), 1);
    assert_eq!(events[0].line_number, 3);
    assert_eq!(events[0].path, "page.html");
    assert_eq!(events[0].class, "btn-danger");
    let files = vec![FileInput { path: "page.html".to_string(), content: Some(content.to_string()) }];
    let outcome = validate_files(&cfg, &accepted, &files);
    assert!(!outcome.valid);
    assert_eq!(outcome.events.len(), 1);
}

#[test]
fn file_without_matches_contributes_nothing() {
    let cfg = config();
    let accepted = set_of(&["btn"]);
    let files = vec![
        FileInput {
            path: "plain.txt".to_string(),
            content: Some("no class attribute here\nnot on this line either\n".to_string()),
        },
        FileInput {
            path: "ok.html".to_string(),
            content: Some("<i class=\"btn\"></i>".to_string()),
        },
    ];
    let outcome = validate_files(&cfg, &accepted, &files);
    assert!(outcome.valid);
    assert_eq!(outcome.events.len(), 0);
}

#[test]
fn unreadable_file_leaves_the_rest_of_the_aggregate_alone() {
    let cfg = config();
    let accepted = set_of(&["btn"]);
    let readable_one = FileInput {
        path: "a.html".to_string(),
        content: Some("<i class=\"btn bad-a\"></i>".to_string()),
    };
    let readable_two = FileInput {
        path: "b.html".to_string(),
        content: Some("<i class=\"bad-b\"></i>".to_string()),
    };
    let unreadable = FileInput { path: "locked.html".to_string(), content: None };
    let with_failure = vec![readable_one.clone(), unreadable, readable_two.clone()];
    let without_failure = vec![readable_one, readable_two];
    let full = validate_files(&cfg, &accepted, &with_failure);
    let partial = validate_files(&cfg, &accepted, &without_failure);
    assert_eq!(full.valid, partial.valid);
    assert_eq!(full.events.len(), partial.events.len());
    for (a, b) in full.events.iter().zip(partial.events.iter()) {
        assert_eq!(a.line_number, b.line_number);
        assert_eq!(a.path, b.path);
        assert_eq!(a.class, b.class);
    }
}

#[test]
fn rerunning_an_unchanged_pass_changes_nothing() {
    let cfg = config();
    let accepted = set_of(&["btn"]);
    let files = vec![
        FileInput {
            path: "a.html".to_string(),
            content: Some("<i class=\"btn stray\"></i>".to_string()),
        },
        FileInput { path: "b.html".to_string(), content: Some("<i class=\"btn\"></i>".to_string()) },
    ];
    let first = validate_files(&cfg, &accepted, &files);
    let second = validate_files(&cfg, &accepted, &files);
    assert_eq!(first.valid, second.valid);
    assert_eq!(first.events.len(), second.events.len());
    for (a, b) in first.events.iter().zip(second.events.iter()) {
        assert_eq!(a.line_number, b.line_number);
        assert_eq!(a.path, b.path);
        assert_eq!(a.class, b.class);
    }
}

#[test]
fn configuration_errors_come_before_any_scanning() {
    let files: Vec<FileInput> = Vec::new();
    let css = ".btn { }";
    assert!(matches!(
        run_validation("class=\"([^\"]+\"", SPLIT, "**/*.html", css, &files),
        Err(Error::CaptureRegex)
    ));
    assert!(matches!(
        run_validation(CAPTURE, "[", "**/*.html", css, &files),
        Err(Error::SplitRegex)
    ));
    assert!(matches!(
        run_validation(CAPTURE, SPLIT, "a[", css, &files),
        Err(Error::GlobPattern)
    ));
}

#[test]
fn css_without_classes_aborts_the_whole_pass() {
    let files = vec![FileInput {
        path: "a.html".to_string(),
        content: Some("<i class=\"anything\"></i>".to_string()),
    }];
    let outcome = run_validation(CAPTURE, SPLIT, "**/*.html", "body { margin: 0 }", &files);
    assert!(matches!(
        outcome,
        Err(Error::Pyaco(pyaco::errors::Error::NoCssClassesFound))
    ));
}

#[test]
fn whole_pass_over_prepared_inputs() {
    let files = vec![FileInput {
        path: "a.html".to_string(),
        content: Some("<i class=\"btn btn-danger\"></i>".to_string()),
    }];
    let outcome = run_validation(CAPTURE, SPLIT, "**/*.html", ".btn { }", &files).unwrap();
    assert!(!outcome.valid);
    assert_eq!(outcome.events.len(), 1);
    assert_eq!(outcome.events[0].class, "btn-danger");
}

#[test]
fn empty_split_tokens_are_discarded() {
    let cfg = CaptureConfig::new(CAPTURE.to_string(), ",".to_string()).unwrap();
    let accepted = set_of(&["btn"]);
    let events = report_unknown_classes(&cfg, &accepted, "a.html", "<i class=\",btn,,btn,\"></i>");
    assert_eq!(events.len(), 0);
}

#[test]
fn too_many_open_files_is_told_apart() {
    assert_eq!(classify_open_error(Some(24)), FileErrorKind::TooManyOpenFiles);
    assert_eq!(classify_open_error(Some(13)), FileErrorKind::Other);
    assert_eq!(classify_open_error(None), FileErrorKind::Other);
}

#[test]
fn capture_may_match_across_lines() {
    let cfg = config();
    let accepted = set_of(&["btn"]);
    // The class attribute is broken across two lines; the buffer-wide search
    // still captures it, and the event carries the line the match starts on.
    let content = "<p>\n<div class=\"btn\nstray-on-line-2\">\n</p>\n";
    let events = report_unknown_classes(&cfg, &accepted, "page.html", content);
    assert_eq!(events.len(), 1);
    assert_eq!(events[0].class, "stray-on-line-2");
    assert_eq!(events[0].line_number, 2);
}

#[test]
fn every_match_of_a_line_is_scanned() {
    let cfg = config();
    let accepted = set_of(&["btn"]);
    let content = "<i class=\"btn first-stray\"></i><b class=\"second-stray\"></b>\n";
    let events = report_unknown_classes(&cfg, &accepted, "page.html", content);
    assert_eq!(events.len(), 2);
    assert_eq!(events[0].class, "first-stray");
    assert_eq!(events[1].class, "second-stray");
    assert_eq!(events[0].line_number, 1);
    assert_eq!(events[1].line_number, 1);
}
