use hyde::bridge::{
    clear_values, filter_call, is_value_blank, is_value_default, from_script, script_result, to_script, Scalar, ScriptFields,
    ScriptIndexed, ScriptList, ScriptTable, ScriptValue, ValueArena,
};
use hyde::error::HydeError;
use hyde::value::{EntryList, Value, ValueList};

fn s(t: &str) -> Value {
    Value::Str(t.to_string())
}

fn list(items: Vec<Value>) -> ValueList {
    items.into_iter().rev().fold(ValueList::Empty, |acc, v| ValueList::Cons(Box::new(v), Box::new(acc)))
}

fn entries(items: Vec<(&str, Value)>) -> EntryList {
    items.into_iter().rev().fold(EntryList::Empty, |acc, (k, v)| EntryList::Cons(k.to_string(), Box::new(v), Box::new(acc)))
}

fn seq_table(items: Vec<ScriptValue>) -> ScriptTable {
    let seq = items.into_iter().rev().fold(ScriptList::Empty, |acc, v| ScriptList::Cons(Box::new(v), Box::new(acc)));
    ScriptTable { seq, indexed: ScriptIndexed::Empty, fields: ScriptFields::Empty, array: true }
}

#[test]
fn scalars_round_trip() {
    for v in [Value::Nil, Value::Bool(true), Value::Int(-7), Value::Real(0x3ff8_0000_0000_0000), s("héllo")] {
        let back = from_script(&to_script(&v));
        assert_eq!(back, Some(v));
    }
}

#[test]
fn nested_tables_round_trip() {
    let v = Value::Object(entries(vec![
        ("title", s("Hi")),
        ("tags", Value::Array(list(vec![s("a"), s("b")]))),
        ("empty", Value::Array(ValueList::Empty)),
        ("inner", Value::Object(entries(vec![("n", Value::Int(3)), ("deeper", Value::Object(EntryList::Empty))]))),
    ]));
    let sv = to_script(&v);
    match &sv {
        ScriptValue::Table(t) => assert!(!t.array),
        _ => panic!("a map did not become a table"),
    }
    assert_eq!(from_script(&sv), Some(v));
}

#[test]
fn functions_have_no_template_form() {
    assert_eq!(from_script(&ScriptValue::Function(4)), None);
    let r = script_result(&ScriptValue::UserData(1));
    assert_eq!(r.unwrap_err().kind, HydeError::NotConvertible);
    assert_eq!(script_result(&ScriptValue::Integer(5)).unwrap(), Value::Int(5));
}

#[test]
fn mixed_tables_have_no_template_form() {
    let t = ScriptTable {
        seq: ScriptList::Cons(Box::new(ScriptValue::Integer(1)), Box::new(ScriptList::Empty)),
        indexed: ScriptIndexed::Empty,
        fields: ScriptFields::Cons("k".to_string(), Box::new(ScriptValue::Nil), Box::new(ScriptFields::Empty)),
        array: false,
    };
    assert_eq!(from_script(&ScriptValue::Table(t)), None);
}

#[test]
fn truthiness() {
    assert!(!ScriptValue::Nil.truthy());
    assert!(!ScriptValue::Boolean(false).truthy());
    assert!(ScriptValue::Boolean(true).truthy());
    assert!(ScriptValue::Integer(0).truthy());
    assert!(ScriptValue::Str(String::new()).truthy());
    assert!(ScriptValue::Function(1).truthy());
}

#[test]
fn default_state() {
    assert!(is_value_default(&ScriptValue::Nil));
    assert!(is_value_default(&ScriptValue::Boolean(false)));
    assert!(is_value_default(&ScriptValue::Integer(0)));
    assert!(is_value_default(&ScriptValue::Number(0)));
    assert!(is_value_default(&ScriptValue::Number(0x8000_0000_0000_0000)));
    assert!(is_value_default(&ScriptValue::Str(String::new())));
    assert!(is_value_default(&ScriptValue::LightUserData(0)));
    assert!(!is_value_default(&ScriptValue::LightUserData(8)));
    assert!(!is_value_default(&ScriptValue::Integer(2)));
    assert!(!is_value_default(&ScriptValue::Number(0x3ff0_0000_0000_0000)));
    assert!(!is_value_default(&ScriptValue::Table(seq_table(vec![]))));
}

#[test]
fn blank_and_empty_states() {
    assert!(is_value_blank(&ScriptValue::Nil));
    assert!(is_value_blank(&ScriptValue::Str(String::new())));
    assert!(is_value_blank(&ScriptValue::Table(seq_table(vec![]))));
    assert!(ScriptValue::Table(seq_table(vec![])).is_empty());
    assert!(!ScriptValue::Nil.is_empty());
    assert!(!is_value_blank(&ScriptValue::Boolean(false)));
    assert!(!is_value_blank(&ScriptValue::Table(seq_table(vec![ScriptValue::Nil]))));
}

#[test]
fn scalar_forms() {
    assert_eq!(ScriptValue::Boolean(true).as_scalar(), Some(Scalar::Bool(true)));
    assert_eq!(ScriptValue::Integer(9).as_scalar(), Some(Scalar::Int(9)));
    assert_eq!(ScriptValue::Number(7).as_scalar(), Some(Scalar::Real(7)));
    assert_eq!(ScriptValue::Str("x".to_string()).as_scalar(), Some(Scalar::Str("x".to_string())));
    assert_eq!(ScriptValue::Nil.as_scalar(), None);
    assert!(!ScriptValue::Table(seq_table(vec![])).is_scalar());
    assert!(ScriptValue::Table(seq_table(vec![])).is_container());
    assert!(ScriptValue::UserData(3).is_container());
    assert!(!ScriptValue::Str(String::new()).is_container());
}

#[test]
fn array_indices_start_at_zero_and_count_back_when_negative() {
    let t = seq_table(vec![ScriptValue::Integer(10), ScriptValue::Integer(20), ScriptValue::Integer(30)]);
    assert_eq!(t.size(), 3);
    assert!(matches!(t.array_get(0), Some(ScriptValue::Integer(10))));
    assert!(matches!(t.array_get(2), Some(ScriptValue::Integer(30))));
    assert!(t.array_get(3).is_none());
    assert!(matches!(t.array_get(-1), Some(ScriptValue::Integer(30))));
    assert!(matches!(t.array_get(-3), Some(ScriptValue::Integer(10))));
    assert!(t.array_get(-4).is_none());
    assert!(t.array_get(i64::MIN).is_none());
    assert!(t.array_contains(1));
    assert!(!t.array_contains(5));
}

#[test]
fn object_lookup_and_keys() {
    let v = to_script(&Value::Object(entries(vec![("a", Value::Int(1)), ("b", s("x"))])));
    let ScriptValue::Table(t) = v else { panic!("not a table") };
    assert!(matches!(t.object_get("a"), Some(ScriptValue::Integer(1))));
    assert!(t.object_get("c").is_none());
    assert!(t.object_contains("b"));
    assert_eq!(t.keys(), vec!["a".to_string(), "b".to_string()]);
}

#[test]
fn keys_include_sequence_positions_and_other_integers() {
    let mut t = seq_table(vec![ScriptValue::Integer(10), ScriptValue::Integer(20)]);
    t.indexed = ScriptIndexed::Cons(-5, Box::new(ScriptValue::Nil), Box::new(ScriptIndexed::Empty));
    t.fields = ScriptFields::Cons("k".to_string(), Box::new(ScriptValue::Nil), Box::new(ScriptFields::Empty));
    assert_eq!(t.keys(), vec!["1".to_string(), "2".to_string(), "-5".to_string(), "k".to_string()]);
    assert_eq!(from_script(&ScriptValue::Table(t)), None);
}

#[test]
fn filter_arguments_are_converted() {
    let input = Value::Array(list(vec![Value::Int(1), Value::Object(entries(vec![("k", s("v"))]))]));
    let call = filter_call(&input, &vec![("sep".to_string(), s(", "))], &vec![Value::Int(2), s("p")]);
    assert_eq!(from_script(&call.input), Some(input));
    assert_eq!(call.positional.len(), 2);
    assert_eq!(from_script(&call.positional[1]), Some(s("p")));
    let ScriptValue::Table(k) = &call.keywords else { panic!("keywords are not a table") };
    assert!(matches!(k.object_get("sep"), Some(ScriptValue::Str(t)) if t == ", "));
}

#[test]
fn arena_slots_and_clearing() {
    let mut arena = ValueArena::new();
    let a = arena.store_value(ScriptValue::Integer(1));
    let b = arena.store_value(ScriptValue::Boolean(true));
    assert_eq!((a, b), (0, 1));
    assert!(matches!(arena.get(1), Some(ScriptValue::Boolean(true))));
    clear_values(&mut arena);
    assert!(arena.get(0).is_none());
}
