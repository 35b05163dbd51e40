use hyde::metadata::{merge, Metadata};
use hyde::value::{copy_value, EntryList, Value, ValueList};

fn s(t: &str) -> Value {
    Value::Str(t.to_string())
}

fn meta(pairs: &[(&str, Value)]) -> Metadata {
    Metadata::from_pairs(pairs.iter().map(|(k, v)| (k.to_string(), copy_value(v))).collect())
}

#[test]
fn insert_get_remove() {
    let mut m = Metadata::new();
    assert_eq!(m.get("a"), None);
    m.insert("a".to_string(), Value::Int(1));
    m.insert("b".to_string(), Value::Bool(true));
    m.insert("a".to_string(), Value::Int(2));
    assert_eq!(m.get("a"), Some(&Value::Int(2)));
    assert!(m.contains_key("b"));
    assert_eq!(m.remove("a"), Some(Value::Int(2)));
    assert_eq!(m.get("a"), None);
    assert_eq!(m.remove("a"), None);
    assert_eq!(m.get("b"), Some(&Value::Bool(true)));
}

#[test]
fn later_pairs_win() {
    let m = meta(&[("k", s("first")), ("k", s("second"))]);
    assert_eq!(m.get("k"), Some(&s("second")));
}

#[test]
fn merge_takes_later_values_and_keeps_the_rest() {
    let a = meta(&[("title", s("A")), ("draft", Value::Bool(true))]);
    let b = meta(&[("title", s("B")), ("tag", s("x"))]);
    let m = merge(a, b);
    assert_eq!(m.get("title"), Some(&s("B")));
    assert_eq!(m.get("draft"), Some(&Value::Bool(true)));
    assert_eq!(m.get("tag"), Some(&s("x")));
    assert_eq!(m.get("none"), None);
}

#[test]
fn merge_is_associative_on_an_example() {
    let a = || meta(&[("x", Value::Int(1)), ("y", Value::Int(1))]);
    let b = || meta(&[("y", Value::Int(2)), ("z", Value::Int(2))]);
    let c = || meta(&[("z", Value::Int(3)), ("w", Value::Int(3))]);
    let left = merge(merge(a(), b()), c());
    let right = merge(a(), merge(b(), c()));
    for k in ["x", "y", "z", "w", "v"] {
        assert_eq!(left.get(k), right.get(k));
    }
    assert_eq!(left.get("y"), Some(&Value::Int(2)));
    assert_eq!(left.get("z"), Some(&Value::Int(3)));
}

#[test]
fn copies_are_equal() {
    let nested = Value::Object(EntryList::Cons(
        "list".to_string(),
        Box::new(Value::Array(ValueList::Cons(Box::new(Value::Real(0x4009_21fb_5444_2d18)), Box::new(ValueList::Empty)))),
        Box::new(EntryList::Empty),
    ));
    assert_eq!(copy_value(&nested), nested);
    let m = meta(&[("n", copy_value(&nested))]);
    let c = m.copy();
    assert_eq!(c.get("n"), Some(&nested));
}
