use matrix_ping_bot::value::{merge, ScalarKind, Value};

fn num(n: &str) -> Value {
    Value::Scalar(ScalarKind::Number, n.to_owned())
}

fn map(entries: Vec<(&str, Value)>) -> Value {
    Value::Mapping(entries.into_iter().map(|(k, v)| (Value::string(k), v)).collect())
}

#[test]
fn merge_adds_overlay_keys_and_recurses() {
    let base = map(vec![("a", num("1")), ("b", map(vec![("x", num("1"))]))]);
    let overlay = map(vec![("b", map(vec![("y", num("2"))])), ("c", num("3"))]);
    let expected = map(vec![
        ("a", num("1")),
        ("b", map(vec![("x", num("1")), ("y", num("2"))])),
        ("c", num("3")),
    ]);
    assert_eq!(merge(base, overlay), expected);
}

#[test]
fn merge_base_wins_on_scalar_conflict() {
    let base = map(vec![("a", num("1"))]);
    let overlay = map(vec![("a", num("2"))]);
    assert_eq!(merge(base, overlay), map(vec![("a", num("1"))]));
}

#[test]
fn merge_concatenates_sequences_without_deduplication() {
    let base = Value::Sequence(vec![num("1"), num("2")]);
    let overlay = Value::Sequence(vec![num("2"), num("3")]);
    assert_eq!(
        merge(base, overlay),
        Value::Sequence(vec![num("1"), num("2"), num("2"), num("3")])
    );
}

#[test]
fn merge_base_wins_on_kind_mismatch() {
    let seq = Value::Sequence(vec![num("1")]);
    let mapping = map(vec![("a", num("1"))]);
    assert_eq!(merge(seq.deep_clone(), mapping.deep_clone()), seq);
    assert_eq!(merge(mapping.deep_clone(), seq.deep_clone()), mapping);
    assert_eq!(merge(Value::null(), mapping.deep_clone()), Value::null());
    assert_eq!(merge(num("7"), seq.deep_clone()), num("7"));
    assert_eq!(merge(mapping.deep_clone(), Value::null()), mapping);
}

#[test]
fn merge_keeps_base_order_and_appends_new_keys_in_overlay_order() {
    let base = map(vec![("z", num("1")), ("a", Value::Sequence(vec![num("1")]))]);
    let overlay = map(vec![
        ("m", num("5")),
        ("a", Value::Sequence(vec![num("2")])),
        ("b", Value::string("x")),
        ("z", num("9")),
    ]);
    let expected = map(vec![
        ("z", num("1")),
        ("a", Value::Sequence(vec![num("1"), num("2")])),
        ("m", num("5")),
        ("b", Value::string("x")),
    ]);
    assert_eq!(merge(base, overlay), expected);
}

#[test]
fn merge_with_empty_mapping_is_identity_either_way() {
    let doc = map(vec![("a", map(vec![("b", Value::Sequence(vec![Value::string("s")]))]))]);
    assert_eq!(merge(doc.deep_clone(), map(vec![])), doc);
    assert_eq!(merge(map(vec![]), doc.deep_clone()), doc);
}

#[test]
fn value_accessors_read_mappings_and_strings() {
    let doc = map(vec![("name", Value::string("Claire")), ("n", num("3"))]);
    assert_eq!(doc.get("name").and_then(|v| v.as_str()), Some("Claire"));
    assert_eq!(doc.get("n").and_then(|v| v.as_str()), None);
    assert!(doc.get("missing").is_none());
    assert!(Value::null().get("name").is_none());
    assert!(Value::null().is_null());
    assert!(!doc.is_null());
    assert!(doc.same(&doc.deep_clone()));
    assert!(!doc.same(&map(vec![("name", Value::string("claire")), ("n", num("3"))])));
    assert!(!Value::string("1").same(&num("1")));
}
