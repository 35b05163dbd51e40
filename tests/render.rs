use hyde::error::HydeError;
use hyde::metadata::Metadata;
use hyde::path::RelPath;
use hyde::render::{render_markdown, Layout, Layouts, RenderFrame, Scope, Step};
use hyde::value::Value;

fn s(t: &str) -> Value {
    Value::Str(t.to_string())
}

fn meta(pairs: &[(&str, Value)]) -> Metadata {
    Metadata::from_pairs(pairs.iter().map(|(k, v)| (k.to_string(), hyde::value::copy_value(v))).collect())
}

fn path(t: &str) -> RelPath {
    RelPath { text: t.to_string() }
}

fn layouts(list: Vec<(&str, Option<Metadata>)>) -> Layouts {
    Layouts {
        list: list
            .into_iter()
            .map(|(n, m)| Layout { name: n.to_string(), path: path(&format!("{n}.html")), metadata: m })
            .collect(),
    }
}

fn to_liquid(m: &Metadata) -> liquid::Object {
    let mut o = liquid::Object::new();
    for (k, v) in m.pairs() {
        let v = match v {
            Value::Str(t) => liquid::model::Value::scalar(t.clone()),
            Value::Int(i) => liquid::model::Value::scalar(*i),
            Value::Bool(b) => liquid::model::Value::scalar(*b),
            _ => liquid::model::Value::Nil,
        };
        o.insert(k.clone().into(), v);
    }
    o
}

#[test]
fn no_layout_means_done() {
    let f = RenderFrame::start(Metadata::new(), meta(&[("title", s("Hi"))]), Some(path("a.txt")));
    assert!(f.is_top_level());
    match f.next_step("Hi".to_string(), &layouts(vec![])).unwrap() {
        Step::Done(out) => assert_eq!(out, "Hi"),
        Step::Next(_) => panic!("no layout was asked for"),
    }
}

#[test]
fn nil_layout_means_done() {
    let f = RenderFrame::start(meta(&[("layout", s("base"))]), meta(&[("layout", Value::Nil)]), None);
    assert!(matches!(f.next_step("x".to_string(), &layouts(vec![("base", None)])).unwrap(), Step::Done(_)));
}

#[test]
fn scenario_layout_wraps_content() {
    let ls = layouts(vec![("base", Some(meta(&[("kind", s("page"))])))]);
    let f = RenderFrame::start(Metadata::new(), meta(&[("title", s("Hi")), ("layout", s("base"))]), Some(path("a.txt")));
    let Step::Next(g) = f.next_step("Hi".to_string(), &ls).unwrap() else { panic!("layout not entered") };
    assert!(!g.is_top_level());
    assert_eq!(g.layout, Some(0));
    assert_eq!(g.source, Some(path("a.txt")));
    assert_eq!(g.layout_path, Some(path("base.html")));
    assert_eq!(g.chain, vec!["base".to_string()]);
    assert_eq!(g.scope.get("content"), Some(&s("Hi")));
    assert_eq!(g.scope.get("title"), Some(&s("Hi")));
    assert_eq!(g.scope.get("kind"), Some(&s("page")));
    assert_eq!(g.scope.get("layout"), None);
    let parser = liquid::ParserBuilder::with_stdlib().build().unwrap();
    let out = parser.parse("<h1>{{ content }}</h1>").unwrap().render(&to_liquid(&g.scope.flatten())).unwrap();
    assert_eq!(out, "<h1>Hi</h1>");
    match g.next_step(out, &ls).unwrap() {
        Step::Done(o) => assert_eq!(o, "<h1>Hi</h1>"),
        Step::Next(_) => panic!("the chain did not end"),
    }
}

#[test]
fn file_metadata_shadows_layout_metadata() {
    let ls = layouts(vec![("base", Some(meta(&[("title", s("Layout"))])))]);
    let f = RenderFrame::start(Metadata::new(), meta(&[("title", s("Page")), ("layout", s("base"))]), None);
    let Step::Next(g) = f.next_step("c".to_string(), &ls).unwrap() else { panic!("layout not entered") };
    assert_eq!(g.scope.get("title"), Some(&s("Page")));
    assert_eq!(g.scope.flatten().get("title"), Some(&s("Page")));
}

#[test]
fn layouts_chain_through_their_own_metadata() {
    let ls = layouts(vec![("inner", Some(meta(&[("layout", s("outer"))]))), ("outer", None)]);
    let f = RenderFrame::start(Metadata::new(), meta(&[("layout", s("inner"))]), Some(path("p.md")));
    let Step::Next(g) = f.next_step("1".to_string(), &ls).unwrap() else { panic!("inner not entered") };
    let Step::Next(h) = g.next_step("2".to_string(), &ls).unwrap() else { panic!("outer not entered") };
    assert_eq!(h.layout, Some(1));
    assert_eq!(h.scope.get("content"), Some(&s("2")));
    assert_eq!(h.chain, vec!["inner".to_string(), "outer".to_string()]);
    assert!(matches!(h.next_step("3".to_string(), &ls).unwrap(), Step::Done(o) if o == "3"));
}

#[test]
fn missing_layouts_are_reported() {
    let f = RenderFrame::start(Metadata::new(), meta(&[("layout", s("nope"))]), Some(path("a.html")));
    let e = f.next_step("x".to_string(), &layouts(vec![("base", None)])).unwrap_err();
    assert_eq!(e.kind, HydeError::LayoutNotFound("nope".to_string()));
    assert_eq!(e.context, vec!["a.html".to_string()]);
}

#[test]
fn script_made_files_are_labelled() {
    let f = RenderFrame::start(Metadata::new(), meta(&[("layout", s("nope"))]), None);
    assert_eq!(f.label(), "Lua-generated File");
    let e = f.next_step("x".to_string(), &layouts(vec![])).unwrap_err();
    assert_eq!(e.context, vec!["Lua-generated File".to_string()]);
}

#[test]
fn layout_cycles_are_refused() {
    let ls = layouts(vec![("a", Some(meta(&[("layout", s("b"))]))), ("b", Some(meta(&[("layout", s("a"))])))]);
    let f = RenderFrame::start(Metadata::new(), meta(&[("layout", s("a"))]), None);
    let Step::Next(g) = f.next_step("1".to_string(), &ls).unwrap() else { panic!() };
    let Step::Next(h) = g.next_step("2".to_string(), &ls).unwrap() else { panic!() };
    let e = h.next_step("3".to_string(), &ls).unwrap_err();
    assert_eq!(e.kind, HydeError::LayoutCycle("a".to_string()));
}

#[test]
fn non_string_layout_values_are_looked_up_by_their_text() {
    let f = RenderFrame::start(Metadata::new(), meta(&[("layout", Value::Int(3))]), None);
    let e = f.next_step("x".to_string(), &layouts(vec![])).unwrap_err();
    assert_eq!(e.kind, HydeError::LayoutNotFound("3".to_string()));
    let f = RenderFrame::start(Metadata::new(), meta(&[("layout", Value::Int(-12))]), None);
    let Step::Next(g) = f.next_step("x".to_string(), &layouts(vec![("-12", None)])).unwrap() else { panic!() };
    assert_eq!(g.layout, Some(0));
    let f = RenderFrame::start(Metadata::new(), meta(&[("layout", Value::Bool(true))]), None);
    assert!(matches!(f.next_step("x".to_string(), &layouts(vec![("true", None)])).unwrap(), Step::Next(_)));
    let f = RenderFrame::start(Metadata::new(), meta(&[("layout", Value::Real(0))]), None);
    let e = f.next_step("x".to_string(), &layouts(vec![])).unwrap_err();
    assert_eq!(e.kind, HydeError::LayoutNotFound(String::new()));
}

#[test]
fn errors_inside_a_layout_name_the_file_and_the_layout() {
    let ls = layouts(vec![("base", Some(meta(&[("layout", s("gone"))])))]);
    let f = RenderFrame::start(Metadata::new(), meta(&[("layout", s("base"))]), Some(path("a.md")));
    let Step::Next(g) = f.next_step("x".to_string(), &ls).unwrap() else { panic!() };
    assert_eq!(g.label(), "a.md + base.html");
    assert_eq!(g.source, Some(path("a.md")));
    let e = g.next_step("y".to_string(), &ls).unwrap_err();
    assert_eq!(e.kind, HydeError::LayoutNotFound("gone".to_string()));
    assert_eq!(e.context, vec!["a.md + base.html".to_string()]);
}

#[test]
fn later_layouts_with_the_same_name_win() {
    let ls = layouts(vec![("base", None), ("base", None)]);
    assert_eq!(ls.find("base"), Some(1));
    assert_eq!(ls.find("other"), None);
}

#[test]
fn markdown_is_converted_only_at_top_level() {
    let f = RenderFrame::start(Metadata::new(), meta(&[("layout", s("base"))]), Some(path("post.md")));
    let html = f.after_render("# Hi".to_string());
    assert_eq!(html, "<h1>Hi</h1>");
    let ls = layouts(vec![("base", None)]);
    let Step::Next(g) = f.next_step(html, &ls).unwrap() else { panic!() };
    assert_eq!(g.after_render("# kept".to_string()), "# kept");
    let t = RenderFrame::start(Metadata::new(), Metadata::new(), Some(path("a.txt")));
    assert_eq!(t.after_render("# kept".to_string()), "# kept");
}

#[test]
fn markdown_allows_raw_html() {
    assert_eq!(render_markdown("<div>x</div>"), "<div>x</div>");
    assert_eq!(render_markdown("~a~"), "<p><del>a</del></p>");
}

#[test]
fn scope_lookup_prefers_upper_layers() {
    let sc = Scope { layers: vec![meta(&[("a", Value::Int(1)), ("b", Value::Int(1))]), meta(&[("b", Value::Int(2))])] };
    assert_eq!(sc.get("a"), Some(&Value::Int(1)));
    assert_eq!(sc.get("b"), Some(&Value::Int(2)));
    assert_eq!(sc.get("c"), None);
    let flat = sc.flatten();
    assert_eq!(flat.get("b"), Some(&Value::Int(2)));
}

#[test]
fn frontmatters_combine_in_order() {
    let m = hyde::render::combine_frontmatters(vec![
        meta(&[("a", Value::Int(1)), ("b", Value::Int(1))]),
        meta(&[("b", Value::Int(2))]),
        meta(&[("c", Value::Int(3))]),
    ]);
    assert_eq!(m.get("a"), Some(&Value::Int(1)));
    assert_eq!(m.get("b"), Some(&Value::Int(2)));
    assert_eq!(m.get("c"), Some(&Value::Int(3)));
}
