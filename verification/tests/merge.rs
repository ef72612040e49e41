use ekke_config::{EkkeCfgError, Merge, Value};

fn s(x: &str) -> Value {
    Value::Str(x.to_string())
}

fn ints(xs: &[i64]) -> Value {
    Value::Arr(xs.iter().map(|i| Value::Int(*i)).collect())
}

fn obj(es: Vec<(&str, Value)>) -> Value {
    Value::Obj(es.into_iter().map(|(k, v)| (k.to_string(), v)).collect())
}

fn cmp(mut a: Value, b: Value, expect: Value) {
    a.merge(b).unwrap();
    assert_eq!(a, expect);
}

#[test]
fn basic_array() {
    cmp(ints(&[1]), ints(&[2]), ints(&[1, 2]));
}

#[test]
fn empty_array() {
    cmp(ints(&[]), ints(&[1, 2]), ints(&[1, 2]));
}

#[test]
fn merge_empty_array() {
    cmp(ints(&[1, 2]), ints(&[]), ints(&[1, 2]));
}

#[test]
fn complex_array() {
    cmp(ints(&[1, 3]), ints(&[2, 4]), ints(&[1, 3, 2, 4]));
}

#[test]
fn overlap_array() {
    cmp(ints(&[1, 3]), ints(&[1, 2, 4]), ints(&[1, 3, 2, 4]));
}

#[test]
fn basic_object_bool() {
    cmp(
        obj(vec![("a", Value::Bool(true))]),
        obj(vec![("a", Value::Bool(false))]),
        obj(vec![("a", Value::Bool(false))]),
    );
}

#[test]
fn basic_object_empty() {
    cmp(
        obj(vec![]),
        obj(vec![("a", Value::Bool(true))]),
        obj(vec![("a", Value::Bool(true))]),
    );
}

#[test]
fn basic_object_merge_empty() {
    cmp(
        obj(vec![("a", Value::Bool(true))]),
        obj(vec![]),
        obj(vec![("a", Value::Bool(true))]),
    );
}

#[test]
fn basic_object_u64() {
    cmp(
        obj(vec![("a", Value::Int(1))]),
        obj(vec![("a", Value::Int(2))]),
        obj(vec![("a", Value::Int(2))]),
    );
}

#[test]
fn basic_object_i64() {
    cmp(
        obj(vec![("a", Value::Int(-1))]),
        obj(vec![("a", Value::Int(-2))]),
        obj(vec![("a", Value::Int(-2))]),
    );
}

#[test]
fn basic_object_f64() {
    let a = (-1.3f64).to_bits();
    let b = (-2.5f64).to_bits();
    cmp(
        obj(vec![("a", Value::Float(a))]),
        obj(vec![("a", Value::Float(b))]),
        obj(vec![("a", Value::Float(b))]),
    );
}

#[test]
fn basic_object_string() {
    cmp(
        obj(vec![("a", s("bli"))]),
        obj(vec![("a", s("bla"))]),
        obj(vec![("a", s("bla"))]),
    );
}

#[test]
fn nested_object() {
    let a = obj(vec![("a", Value::Int(1)), ("obj", obj(vec![("bli", s("bli"))]))]);
    let b = obj(vec![("obj", obj(vec![("bli", s("bla"))]))]);
    let expect = obj(vec![("a", Value::Int(1)), ("obj", obj(vec![("bli", s("bla"))]))]);
    cmp(a, b, expect);
}

#[test]
fn u64_nested_object() {
    let a = obj(vec![("a", Value::Int(1)), ("obj", obj(vec![("bli", s("bli"))]))]);
    let b = obj(vec![("a", Value::Int(2)), ("obj", obj(vec![("bli", s("bla"))]))]);
    let expect = obj(vec![("a", Value::Int(2)), ("obj", obj(vec![("bli", s("bla"))]))]);
    cmp(a, b, expect);
}

#[test]
fn u64_nested_array() {
    let a = obj(vec![("a", Value::Int(1)), ("obj", obj(vec![("bli", ints(&[1]))]))]);
    let b = obj(vec![("a", Value::Int(2)), ("obj", obj(vec![("bli", ints(&[2, 4]))]))]);
    let expect = obj(vec![("a", Value::Int(2)), ("obj", obj(vec![("bli", ints(&[1, 2, 4]))]))]);
    cmp(a, b, expect);
}

#[test]
fn null_never_unsets() {
    let mut a = s("bli");
    a.merge(Value::Null).unwrap();
    assert_eq!(a, s("bli"));
    let mut b = obj(vec![("a", Value::Bool(true))]);
    b.merge(Value::Null).unwrap();
    assert_eq!(b, obj(vec![("a", Value::Bool(true))]));
    let mut n = Value::Null;
    n.merge(Value::Null).unwrap();
    assert_eq!(n, Value::Null);
}

#[test]
fn nested_null_never_unsets() {
    let mut a = obj(vec![("a", s("keep"))]);
    a.merge(obj(vec![("a", Value::Null)])).unwrap();
    assert_eq!(a, obj(vec![("a", s("keep"))]));
}

#[test]
fn wrong_type_is_an_error_with_snapshots() {
    let mut a = s("bli");
    let r = a.merge(Value::Bool(true));
    match r {
        Err(EkkeCfgError::MergeWrongType(existing, incoming)) => {
            assert_eq!(existing, s("bli"));
            assert_eq!(incoming, Value::Bool(true));
        }
        _ => panic!("expected a wrong-type error"),
    }
    assert_eq!(a, s("bli"));
}

#[test]
fn nested_wrong_type_keeps_earlier_siblings() {
    let mut a = obj(vec![("x", Value::Int(1)), ("y", s("bli"))]);
    let r = a.merge(obj(vec![("x", Value::Int(7)), ("y", Value::Bool(true))]));
    match r {
        Err(EkkeCfgError::MergeWrongType(existing, incoming)) => {
            assert_eq!(existing, s("bli"));
            assert_eq!(incoming, Value::Bool(true));
        }
        _ => panic!("expected a wrong-type error"),
    }
    assert_eq!(a, obj(vec![("x", Value::Int(7)), ("y", s("bli"))]));
}

#[test]
fn array_merge_directly() {
    let mut xs = vec![Value::Int(1), Value::Int(3)];
    xs.merge(vec![Value::Int(1), Value::Int(2)]).unwrap();
    assert_eq!(xs, vec![Value::Int(1), Value::Int(3), Value::Int(2)]);
}

#[test]
fn mapping_merge_directly() {
    let mut es = vec![("a".to_string(), Value::Int(1))];
    es.merge(vec![
        ("a".to_string(), Value::Int(2)),
        ("b".to_string(), Value::Bool(true)),
    ])
    .unwrap();
    assert_eq!(
        es,
        vec![("a".to_string(), Value::Int(2)), ("b".to_string(), Value::Bool(true))]
    );
}

#[test]
fn clone_is_deep() {
    let a = obj(vec![("xs", ints(&[1, 2])), ("s", s("bli"))]);
    let mut b = a.clone();
    assert_eq!(a, b);
    b.merge(obj(vec![("s", s("bla"))])).unwrap();
    assert_eq!(a, obj(vec![("xs", ints(&[1, 2])), ("s", s("bli"))]));
    assert_ne!(a, b);
}

#[test]
fn scalar_replace() {
    let mut a = Value::Int(10);
    a.merge(Value::Int(-4)).unwrap();
    assert_eq!(a, Value::Int(-4));
    let mut b = Value::Bool(false);
    b.merge(Value::Bool(true)).unwrap();
    assert_eq!(b, Value::Bool(true));
    let mut c = s("old");
    c.merge(s("new")).unwrap();
    assert_eq!(c, s("new"));
}
