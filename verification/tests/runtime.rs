use ekke_config::{Config, EkkeCfgError, Pointer, Value};

fn s(x: &str) -> Value {
    Value::Str(x.to_string())
}

fn ints(xs: &[i64]) -> Value {
    Value::Arr(xs.iter().map(|i| Value::Int(*i)).collect())
}

fn obj(es: Vec<(&str, Value)>) -> Value {
    Value::Obj(es.into_iter().map(|(k, v)| (k.to_string(), v)).collect())
}

fn defaults_document() -> Value {
    obj(vec![
        ("userset", s("data/userset.yml")),
        (
            "default",
            obj(vec![
                (
                    "my_app",
                    obj(vec![("db_path", s("data/db.sqlite")), ("log_lvl", s("debug"))]),
                ),
                (
                    "other_comp",
                    obj(vec![("primes", ints(&[1, 3, 5, 7])), ("algo", s("fournier"))]),
                ),
            ]),
        ),
    ])
}

fn userset_document() -> Value {
    obj(vec![
        ("my_app", obj(vec![("log_lvl", s("warn"))])),
        (
            "other_comp",
            obj(vec![("primes", ints(&[1, 3, 5, 7, 11])), ("algo", s("euler"))]),
        ),
    ])
}

fn runtime_data() -> Config {
    let mut cfg = Config::from_document(defaults_document()).unwrap();
    cfg.set_def_path(Some("data/defaults.yml".to_string()));
    cfg.merge_userset(userset_document()).unwrap();
    cfg.merge_runtime(obj(vec![("my_app", obj(vec![("log_lvl", s("info"))]))])).unwrap();
    cfg
}

#[test]
fn test_defaults() {
    let cfg = runtime_data();
    let d = cfg.default();

    assert_eq!(d.jptr("/my_app/db_path").unwrap(), &s("data/db.sqlite"));
    assert_eq!(d.jptr("/my_app/log_lvl").unwrap(), &s("debug"));
    assert_eq!(d.jptr("/other_comp/algo").unwrap(), &s("fournier"));
    assert_eq!(d.jptr("/other_comp/primes").unwrap(), &ints(&[1, 3, 5, 7]));
}

#[test]
fn test_userset() {
    let cfg = runtime_data();
    let u = cfg.userset().unwrap();

    assert_eq!(u.jptr("/my_app/log_lvl").unwrap(), &s("warn"));
    assert_eq!(u.jptr("/other_comp/algo").unwrap(), &s("euler"));
    assert_eq!(u.jptr("/other_comp/primes").unwrap(), &ints(&[1, 3, 5, 7, 11]));
}

#[test]
fn test_runtime() {
    let cfg = runtime_data();
    let rt = cfg.runtime().unwrap();

    assert_eq!(rt.jptr("/my_app/log_lvl").unwrap(), &s("info"));
}

#[test]
fn test_settings() {
    let cfg = runtime_data();
    let got = cfg.get();

    assert_eq!(got.jptr("/my_app/db_path").unwrap(), &s("data/db.sqlite"));
    assert_eq!(got.jptr("/my_app/log_lvl").unwrap(), &s("info"));
    assert_eq!(got.jptr("/other_comp/algo").unwrap(), &s("euler"));
    assert_eq!(got.jptr("/other_comp/primes").unwrap(), &ints(&[1, 3, 5, 7, 11]));
}

#[test]
fn test_paths() {
    let cfg = runtime_data();

    assert_eq!(cfg.usr_path().clone().unwrap(), "data/userset.yml");
    assert_eq!(cfg.def_path().clone().unwrap(), "data/defaults.yml");
}

#[test]
fn end_to_end_layering() {
    let root = obj(vec![(
        "default",
        obj(vec![
            (
                "my_app",
                obj(vec![("db_path", s("data/db.sqlite")), ("log_lvl", s("debug"))]),
            ),
            (
                "other_comp",
                obj(vec![("primes", ints(&[1, 3, 5, 7])), ("algo", s("fournier"))]),
            ),
        ]),
    )]);
    let mut cfg = Config::from_document(root).unwrap();
    cfg.merge_userset(obj(vec![(
        "other_comp",
        obj(vec![("primes", ints(&[1, 3, 5, 7, 11])), ("algo", s("euler"))]),
    )]))
    .unwrap();
    cfg.merge_runtime(obj(vec![("my_app", obj(vec![("log_lvl", s("info"))]))])).unwrap();

    let got = cfg.get();
    assert_eq!(got.jptr("/other_comp/algo").unwrap(), &s("euler"));
    assert_eq!(got.jptr("/my_app/log_lvl").unwrap(), &s("info"));
    assert_eq!(got.jptr("/my_app/db_path").unwrap(), &s("data/db.sqlite"));

    // the userset layer never touched the log level, only the defaults hold it
    let u = cfg.userset().unwrap();
    assert!(u.jptr("/my_app/log_lvl").is_none());
    let d = cfg.default();
    assert_eq!(d.jptr("/my_app/log_lvl").unwrap(), &s("debug"));
}

#[test]
fn repeated_userset_merge_is_idempotent() {
    let mut once = Config::from_document(defaults_document()).unwrap();
    once.merge_userset(userset_document()).unwrap();

    let mut twice = Config::from_document(defaults_document()).unwrap();
    twice.merge_userset(userset_document()).unwrap();
    twice.merge_userset(userset_document()).unwrap();

    assert_eq!(once.get(), twice.get());
    assert_eq!(once.userset().unwrap(), twice.userset().unwrap());
}

#[test]
fn ingestion_missing_default_fails() {
    let r = Config::from_document(obj(vec![("other", Value::Int(1))]));
    assert!(matches!(r, Err(EkkeCfgError::ConfigParse)));
}

#[test]
fn ingestion_userset_not_a_string_fails() {
    let root = obj(vec![("userset", Value::Int(5)), ("default", obj(vec![]))]);
    let r = Config::from_document(root);
    assert!(matches!(r, Err(EkkeCfgError::ConfigParse)));
}

#[test]
fn ingestion_default_not_a_mapping_fails() {
    let root = obj(vec![("default", Value::Int(5))]);
    let r = Config::from_document(root);
    assert!(matches!(r, Err(EkkeCfgError::ConfigParse)));
}

#[test]
fn ingestion_root_not_a_mapping_fails() {
    let r = Config::from_document(ints(&[1, 2]));
    assert!(matches!(r, Err(EkkeCfgError::ConfigParse)));
}

#[test]
fn layer_input_must_be_a_mapping() {
    let mut cfg = Config::from_document(defaults_document()).unwrap();
    assert!(matches!(cfg.merge_userset(Value::Int(3)), Err(EkkeCfgError::ConfigParse)));
    assert!(matches!(cfg.merge_runtime(ints(&[1])), Err(EkkeCfgError::ConfigParse)));
}

#[test]
fn failed_layer_merge_leaves_container_untouched() {
    let mut cfg = Config::from_document(defaults_document()).unwrap();
    cfg.merge_userset(userset_document()).unwrap();
    let settings_before = cfg.get().deep_clone();
    // the default holds a string at /my_app/log_lvl: an int clashes
    let r = cfg.merge_runtime(obj(vec![("my_app", obj(vec![("log_lvl", Value::Int(3))]))]));
    match r {
        Err(EkkeCfgError::MergeWrongType(existing, incoming)) => {
            assert_eq!(existing, s("warn"));
            assert_eq!(incoming, Value::Int(3));
        }
        _ => panic!("expected a wrong-type error"),
    }
    assert!(cfg.runtime().is_none());
    assert_eq!(cfg.get(), &settings_before);
}

#[test]
fn set_paths_are_pure_metadata() {
    let mut cfg = Config::from_document(defaults_document()).unwrap();
    let settings_before = cfg.get().deep_clone();
    cfg.set_def_path(Some("elsewhere.yml".to_string()));
    cfg.set_usr_path(None);
    assert_eq!(cfg.def_path().clone().unwrap(), "elsewhere.yml");
    assert!(cfg.usr_path().is_none());
    assert_eq!(cfg.get(), &settings_before);
}
