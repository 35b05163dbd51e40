use hyde::files::FileContent;
use hyde::frontmatter::{is_frontmatter_delimiter, parse_source, split_frontmatter};
use hyde::metadata::Metadata;
use hyde::value::Value;

fn yaml_metadata(text: &str) -> Metadata {
    let parsed: serde_json::Value = serde_yaml::from_str(text).unwrap();
    let mut pairs = Vec::new();
    if let serde_json::Value::Object(map) = parsed {
        for (k, v) in map {
            let v = match v {
                serde_json::Value::String(s) => Value::Str(s),
                serde_json::Value::Bool(b) => Value::Bool(b),
                serde_json::Value::Number(n) => Value::Int(n.as_i64().unwrap()),
                _ => Value::Nil,
            };
            pairs.push((k, v));
        }
    }
    Metadata::from_pairs(pairs)
}

#[test]
fn header_and_body_are_split() {
    let s = split_frontmatter("---\ntitle: Hi\n---\n{{ title }}");
    assert_eq!(s.header.as_deref(), Some("title: Hi"));
    assert_eq!(s.body, "{{ title }}");
}

#[test]
fn text_without_header_is_all_body() {
    let text = "hello\n---\nworld\n";
    let s = split_frontmatter(text);
    assert_eq!(s.header, None);
    assert_eq!(s.body, text);
}

#[test]
fn empty_text_has_no_header() {
    let s = split_frontmatter("");
    assert_eq!(s.header, None);
    assert_eq!(s.body, "");
}

#[test]
fn empty_header_is_empty_text() {
    let s = split_frontmatter("---\n---\nbody\n");
    assert_eq!(s.header.as_deref(), Some(""));
    assert_eq!(s.body, "body\n");
}

#[test]
fn unclosed_header_runs_to_the_end() {
    let s = split_frontmatter("---\na: 1\nb: 2\n");
    assert_eq!(s.header.as_deref(), Some("a: 1\nb: 2\n"));
    assert_eq!(s.body, "");
}

#[test]
fn delimiters_may_carry_trailing_whitespace() {
    let s = split_frontmatter("---  \r\nx: 1\r\n--- \t\r\nrest");
    assert_eq!(s.header.as_deref(), Some("x: 1\r"));
    assert_eq!(s.body, "rest");
}

#[test]
fn the_first_closing_delimiter_ends_the_header() {
    let s = split_frontmatter("---\na: 1\n---\nb\n---\nc");
    assert_eq!(s.header.as_deref(), Some("a: 1"));
    assert_eq!(s.body, "b\n---\nc");
}

#[test]
fn delimiter_lines() {
    assert!(is_frontmatter_delimiter("---"));
    assert!(is_frontmatter_delimiter("---   "));
    assert!(is_frontmatter_delimiter("---\u{3000}"));
    assert!(!is_frontmatter_delimiter("--"));
    assert!(!is_frontmatter_delimiter(" ---"));
    assert!(!is_frontmatter_delimiter("----x"));
    assert!(!is_frontmatter_delimiter(""));
}

#[test]
fn non_utf8_bytes_are_binary() {
    let r = parse_source(vec![0x89, b'P', b'N', b'G', 0xff, 0xfe]);
    assert!(r.is_binary());
}

#[test]
fn utf8_bytes_are_decoded_and_split() {
    let r = parse_source("---\nname: é\n---\nçà".as_bytes().to_vec());
    match r {
        FileContent::Utf8(s) => {
            assert_eq!(s.header.as_deref(), Some("name: é"));
            assert_eq!(s.body, "çà");
        }
        FileContent::Binary => panic!("text was taken for binary"),
    }
}

#[test]
fn scenario_title_renders_from_header() {
    let s = split_frontmatter("---\ntitle: Hi\n---\n{{ title }}");
    let meta = yaml_metadata(s.header.as_deref().unwrap());
    let mut globals = liquid::Object::new();
    for (k, v) in meta.pairs() {
        if let Value::Str(t) = v {
            globals.insert(k.clone().into(), liquid::model::Value::scalar(t.clone()));
        }
    }
    let parser = liquid::ParserBuilder::with_stdlib().build().unwrap();
    let out = parser.parse(&s.body).unwrap().render(&globals).unwrap();
    assert_eq!(out, "Hi");
}
