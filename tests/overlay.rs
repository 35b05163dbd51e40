use hyde::error::HydeError;
use hyde::files::FileContent;
use hyde::metadata::Metadata;
use hyde::overlay::{anchor_glob, assemble_source, is_hidden, Overlays};
use hyde::path::RelPath;
use hyde::value::Value;

fn draft(b: bool) -> Metadata {
    Metadata::from_pairs(vec![("draft".to_string(), Value::Bool(b))])
}

#[test]
fn hidden_names() {
    assert!(is_hidden(".hyde.yml"));
    assert!(!is_hidden("a.html"));
    assert!(!is_hidden(""));
}

#[test]
fn globs_are_anchored_to_their_directory() {
    assert_eq!(anchor_glob("/site/src", "*.html"), "/site/src/*.html");
}

#[test]
fn overlay_applies_to_matching_files_unless_the_header_overrides() {
    let mut o = Overlays::new();
    o.register("/p/src", vec![("*.html".to_string(), draft(true))], "src/.hyde.yml".to_string()).unwrap();
    let m = o.metadata_for("/p/src/index.html");
    assert_eq!(m.get("draft"), Some(&Value::Bool(true)));
    let m = o.metadata_for("/p/src/index.md");
    assert_eq!(m.get("draft"), None);
    let f = assemble_source(
        &o,
        "/p/src/post.html",
        RelPath { text: "post.html".to_string() },
        FileContent::Utf8("b".to_string()),
        Some(draft(false)),
    );
    assert_eq!(f.front_matter.get("draft"), Some(&Value::Bool(false)));
    let g = assemble_source(&o, "/p/src/x.html", RelPath { text: "x.html".to_string() }, FileContent::Binary, None);
    assert_eq!(g.front_matter.get("draft"), Some(&Value::Bool(true)));
}

#[test]
fn later_overlays_win() {
    let mut o = Overlays::new();
    o.register("/p", vec![("**".to_string(), draft(true))], "a".to_string()).unwrap();
    o.register("/p/sub", vec![("*.html".to_string(), draft(false))], "b".to_string()).unwrap();
    assert_eq!(o.metadata_for("/p/sub/x.html").get("draft"), Some(&Value::Bool(false)));
    assert_eq!(o.metadata_for("/p/x.html").get("draft"), Some(&Value::Bool(true)));
}

#[test]
fn refused_patterns_name_the_config_file() {
    let mut o = Overlays::new();
    let e = o
        .register("/p", vec![("ok/*".to_string(), draft(true)), ("{a,b".to_string(), draft(true))], "src/.hyde.yml".to_string())
        .unwrap_err();
    assert!(matches!(e.kind, HydeError::Glob(_)));
    assert_eq!(e.context, vec!["src/.hyde.yml".to_string()]);
    assert!(o.list.is_empty());
}

#[test]
fn empty_alternatives_and_escapes_are_accepted() {
    let mut o = Overlays::new();
    o.register("/p", vec![("a{,.bak}".to_string(), draft(true)), ("\\*x".to_string(), draft(false))], "c".to_string()).unwrap();
    assert_eq!(o.metadata_for("/p/a.bak").get("draft"), Some(&Value::Bool(true)));
    assert_eq!(o.metadata_for("/p/a").get("draft"), Some(&Value::Bool(true)));
    assert_eq!(o.metadata_for("/p/*x").get("draft"), Some(&Value::Bool(false)));
}
