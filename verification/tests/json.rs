use edge_runtime_core::json::{json_eq, merge_object, JsonEntry, JsonValue};

fn num(n: &str) -> JsonValue {
    JsonValue::Number(n.to_string())
}

fn text(s: &str) -> JsonValue {
    JsonValue::Str(s.to_string())
}

fn obj(entries: Vec<(&str, JsonValue)>) -> JsonValue {
    JsonValue::Object(
        entries
            .into_iter()
            .map(|(k, v)| JsonEntry { key: k.to_string(), value: v })
            .collect(),
    )
}

fn at<'a>(v: &'a JsonValue, key: &str) -> &'a JsonValue {
    v.get(&key.to_string()).expect("key present")
}

fn is_text(v: &JsonValue, s: &str) -> bool {
    matches!(v, JsonValue::Str(t) if t == s)
}

#[test]
fn merge_disjoint_objects() {
    let mut a = obj(vec![("a", num("1"))]);
    let b = obj(vec![("b", num("2"))]);
    merge_object(&mut a, &b);
    assert!(json_eq(&a, &obj(vec![("a", num("1")), ("b", num("2"))])));
}

#[test]
fn merge_overlapping_objects_b_wins() {
    let mut a = obj(vec![("key", text("old"))]);
    let b = obj(vec![("key", text("new"))]);
    merge_object(&mut a, &b);
    assert!(is_text(at(&a, "key"), "new"));
}

#[test]
fn merge_nested_objects() {
    let mut a = obj(vec![("outer", obj(vec![("a", num("1"))]))]);
    let b = obj(vec![("outer", obj(vec![("b", num("2"))]))]);
    merge_object(&mut a, &b);
    assert!(json_eq(&a, &obj(vec![("outer", obj(vec![("a", num("1")), ("b", num("2"))]))])));
}

#[test]
fn merge_non_object_replaces() {
    let mut a = text("string");
    let b = num("42");
    merge_object(&mut a, &b);
    assert!(json_eq(&a, &num("42")));
}

#[test]
fn merge_into_empty_object() {
    let mut a = obj(vec![]);
    let b = obj(vec![("key", text("value"))]);
    merge_object(&mut a, &b);
    assert!(json_eq(&a, &obj(vec![("key", text("value"))])));
}

#[test]
fn merge_with_null_values() {
    let mut a = obj(vec![("key", text("value"))]);
    let b = obj(vec![("key", JsonValue::Null)]);
    merge_object(&mut a, &b);
    assert!(matches!(at(&a, "key"), JsonValue::Null));
}

#[test]
fn merge_deep_nested() {
    let mut a = obj(vec![("l1", obj(vec![("l2", obj(vec![("l3", text("a"))]))]))]);
    let b = obj(vec![("l1", obj(vec![("l2", obj(vec![("l4", text("b"))]))]))]);
    merge_object(&mut a, &b);
    assert!(is_text(at(at(at(&a, "l1"), "l2"), "l3"), "a"));
    assert!(is_text(at(at(at(&a, "l1"), "l2"), "l4"), "b"));
}

#[test]
fn merge_object_into_non_object_replaces_it() {
    let mut a = JsonValue::Array(vec![num("1")]);
    let b = obj(vec![("k", JsonValue::Bool(true))]);
    merge_object(&mut a, &b);
    assert!(json_eq(&a, &obj(vec![("k", JsonValue::Bool(true))])));
}

#[test]
fn merge_keeps_keys_only_in_the_target() {
    let mut a = obj(vec![("x", num("1")), ("y", num("2"))]);
    let b = obj(vec![("y", num("3")), ("z", num("4"))]);
    merge_object(&mut a, &b);
    assert!(json_eq(at(&a, "x"), &num("1")));
    assert!(json_eq(at(&a, "y"), &num("3")));
    assert!(json_eq(at(&a, "z"), &num("4")));
    assert!(a.get(&"w".to_string()).is_none());
}

#[test]
fn json_eq_ignores_entry_order() {
    let a = obj(vec![("a", num("1")), ("b", num("2"))]);
    let b = obj(vec![("b", num("2")), ("a", num("1"))]);
    assert!(json_eq(&a, &b));
    assert!(!json_eq(&a, &obj(vec![("a", num("1"))])));
}

#[test]
fn merging_a_value_into_itself_changes_nothing() {
    let v = obj(vec![("a", obj(vec![("b", num("1")), ("c", JsonValue::Array(vec![text("x")]))])), ("d", JsonValue::Null)]);
    let mut a = edge_runtime_core::json::json_clone(&v);
    merge_object(&mut a, &v);
    assert!(json_eq(&a, &v));
}
