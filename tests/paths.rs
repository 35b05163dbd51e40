use hyde::config::{join_dir, HydeConfig};
use hyde::error::{Error, HydeError};
use hyde::files::FileContent;
use hyde::frontmatter::split_frontmatter;
use hyde::host::{first_existing, init_script_candidates, package_cpath, package_path};
use hyde::path::{join_segments, RelPath};
use hyde::render::layout_source;

#[test]
fn normalization() {
    assert_eq!(RelPath::new("a/./b/../c.txt").text, "a/c.txt");
    assert_eq!(RelPath::new(".").text, "");
}

#[test]
fn extension_stem_name_parent() {
    let p = RelPath::new("posts/hello.world.md");
    assert_eq!(p.extension().as_deref(), Some("md"));
    assert_eq!(p.file_stem().as_deref(), Some("hello.world"));
    assert_eq!(p.file_name().as_deref(), Some("hello.world.md"));
    assert_eq!(p.parent().map(|q| q.text), Some("posts".to_string()));
    assert!(p.is_markdown());
    assert!(!RelPath::new("a.html").is_markdown());
    assert_eq!(RelPath::new("noext").extension(), None);
}

#[test]
fn components_are_one_indexed() {
    let p = RelPath::new("a/b/c");
    assert_eq!(p.components(), vec!["a", "b", "c"]);
    assert_eq!(p.component_count(), 3);
    assert_eq!(p.component(1).as_deref(), Some("a"));
    assert_eq!(p.component(3).as_deref(), Some("c"));
    assert_eq!(p.component(0).as_deref(), Some("a"));
    assert_eq!(p.component(4), None);
}

#[test]
fn joining_skips_absent_segments() {
    let r = join_segments(&vec![Some(RelPath::new("a")), None, Some(RelPath::new("b/c.txt"))]);
    assert_eq!(r.text, "a/b/c.txt");
    assert_eq!(RelPath::new("x").join(&RelPath::new("y")).text, "x/y");
}

#[test]
fn stripping_prefixes() {
    let p = RelPath::new("a/b/c");
    assert_eq!(p.strip(Some(&RelPath::new("a"))).map(|q| q.text), Some("b/c".to_string()));
    assert_eq!(p.strip(Some(&RelPath::new("b"))), None);
    assert_eq!(p.strip(None).map(|q| q.text), Some("a/b/c".to_string()));
}

#[test]
fn project_layout() {
    let c = HydeConfig::for_project("/proj", None);
    assert_eq!(c.source_dir, "/proj/src");
    assert_eq!(c.output_dir, "/proj/site");
    assert_eq!(c.plugins_dir, "/proj/plugins");
    assert_eq!(c.layout_dir, "/proj/layouts");
    let d = HydeConfig::for_project("/proj", Some("/out"));
    assert_eq!(d.output_dir, "/out");
    assert_eq!(join_dir("a", "b"), "a/b");
}

#[test]
fn init_script_search() {
    assert_eq!(init_script_candidates(), vec!["init.lua", "init/init.lua"]);
    assert_eq!(first_existing(&vec![false, true]), Some(1));
    assert_eq!(first_existing(&vec![true, true]), Some(0));
    assert_eq!(first_existing(&vec![false, false]), None);
}

#[test]
fn module_search_paths() {
    assert_eq!(
        package_path("/pl"),
        "/pl/share/lua/5.1/?.lua;/pl/share/lua/5.1/?/init.lua;/pl/?.lua;/pl/?/init.lua"
    );
    assert_eq!(package_cpath("/pl"), "/pl/lib/lua/5.1/?.so;/pl/?.so");
}

#[test]
fn layout_files() {
    let l = layout_source(RelPath::new("base.html"), FileContent::Utf8(split_frontmatter("---\na: 1\n---\n<b>"))).unwrap();
    assert_eq!(l.name, "base");
    assert_eq!(l.header.as_deref(), Some("a: 1"));
    assert_eq!(l.body, "<b>");
    let e = layout_source(RelPath::new("img.html"), FileContent::Binary).unwrap_err();
    assert_eq!(e.kind, HydeError::FileNotUtf8("img.html".to_string()));
    let e = layout_source(RelPath::new(""), FileContent::Utf8(split_frontmatter("x"))).unwrap_err();
    assert_eq!(e.kind, HydeError::LayoutUnnamed(String::new()));
}

#[test]
fn error_messages() {
    let e = Error::new(HydeError::LayoutNotFound("base".to_string()))
        .with_context("a.md".to_string())
        .with_context("build".to_string());
    assert_eq!(e.message(), "build: a.md: Layout not found: 'base'");
    assert_eq!(Error::new(HydeError::Glob("m".to_string())).message(), "Invalid glob: m");
    let r: Result<(), Error> = Err(Error::new(HydeError::NotConvertible));
    let w = hyde::error::with_context(r, "ctx");
    assert_eq!(w.unwrap_err().context, vec!["ctx".to_string()]);
}

#[test]
fn setting_extension_file_name_and_stem() {
    let mut p = RelPath::new("a/b.txt");
    p.set_extension("md");
    assert_eq!(p.text, "a/b.md");
    p.set_file_name("c.html");
    assert_eq!(p.text, "a/c.html");
    p.set_stem("d");
    assert_eq!(p.text, "a/d.html");
    p.set_stem("e.json");
    assert_eq!(p.text, "a/e.json");
}
