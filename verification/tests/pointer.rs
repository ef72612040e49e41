use ekke_config::{Pointer, Value};

fn s(x: &str) -> Value {
    Value::Str(x.to_string())
}

fn obj(es: Vec<(&str, Value)>) -> Value {
    Value::Obj(es.into_iter().map(|(k, v)| (k.to_string(), v)).collect())
}

fn strings_root() -> Value {
    obj(vec![("arr", Value::Arr(vec![s("some"), s("strings")]))])
}

#[test]
fn pointer_into_array() {
    let root = strings_root();
    assert_eq!(root.jptr("/arr/0").unwrap(), &s("some"));
    assert_eq!(root.jptr("/arr/1").unwrap(), &s("strings"));
}

#[test]
fn empty_pointer_names_the_root() {
    let root = strings_root();
    assert_eq!(root.jptr("").unwrap(), &root);
}

#[test]
fn leading_zero_index_is_rejected() {
    let root = strings_root();
    assert!(root.jptr("/arr/01").is_none());
}

#[test]
fn plus_index_is_rejected() {
    let root = strings_root();
    assert!(root.jptr("/arr/+1").is_none());
}

#[test]
fn out_of_range_and_missing_keys() {
    let root = strings_root();
    assert!(root.jptr("/arr/2").is_none());
    assert!(root.jptr("/nothing").is_none());
    assert!(root.jptr("/arr/0/deeper").is_none());
}

#[test]
fn pointer_must_start_with_a_slash() {
    let root = strings_root();
    assert!(root.jptr("arr").is_none());
}

#[test]
fn escaped_tokens() {
    let root = obj(vec![("a/b", Value::Int(1)), ("c~d", Value::Int(2))]);
    assert_eq!(root.jptr("/a~1b").unwrap(), &Value::Int(1));
    assert_eq!(root.jptr("/c~0d").unwrap(), &Value::Int(2));
}

#[test]
fn nested_pointer() {
    let root = obj(vec![(
        "outer",
        obj(vec![("inner", Value::Arr(vec![Value::Int(7), Value::Bool(true)]))]),
    )]);
    assert_eq!(root.jptr("/outer/inner/0").unwrap(), &Value::Int(7));
    assert_eq!(root.jptr("/outer/inner/1").unwrap(), &Value::Bool(true));
    assert_eq!(root.jptr("/outer/inner").unwrap(), &Value::Arr(vec![
        Value::Int(7),
        Value::Bool(true),
    ]));
}

#[test]
fn scalars_have_no_children() {
    let root = obj(vec![("n", Value::Int(3))]);
    assert!(root.jptr("/n/0").is_none());
    assert!(root.jptr("/n/x").is_none());
}
