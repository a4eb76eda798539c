use aster::json::JsonValue;
use aster::pointer::{resolve_pointer, resolve_pointer_mut, set_at_pointer, JsonPointerError};

fn s(t: &str) -> JsonValue {
    JsonValue::String(t.to_string())
}

fn obj(es: Vec<(&str, JsonValue)>) -> JsonValue {
    JsonValue::Object(es.into_iter().map(|(k, v)| (k.to_string(), v)).collect())
}

fn sample() -> JsonValue {
    obj(vec![
        ("user", obj(vec![("name", s("张三")), ("age", JsonValue::Number("25".to_string()))])),
        ("items", JsonValue::Array(vec![s("a"), s("b"), s("c")])),
    ])
}

#[test]
fn test_resolve_pointer() {
    let data = sample();
    assert_eq!(resolve_pointer(&data, "/user/name").unwrap(), &s("张三"));
    assert_eq!(resolve_pointer(&data, "/user/age").unwrap(), &JsonValue::Number("25".to_string()));
    assert_eq!(resolve_pointer(&data, "/items/0").unwrap(), &s("a"));
    assert!(resolve_pointer(&data, "/nonexistent").is_err());
}

#[test]
fn test_set_at_pointer() {
    let mut data = obj(vec![]);
    set_at_pointer(&mut data, "/user/name", s("李四")).unwrap();
    assert_eq!(data.get("user").unwrap().get("name").unwrap(), &s("李四"));

    set_at_pointer(&mut data, "/items/0", s("first")).unwrap();
    match data.get("items").unwrap() {
        JsonValue::Array(items) => assert_eq!(items[0], s("first")),
        other => panic!("items is not an array: {:?}", other),
    }
}

#[test]
fn resolve_root_and_escapes() {
    let data = obj(vec![("a/b", JsonValue::Number("1".to_string())), ("m~n", JsonValue::Number("8".to_string()))]);
    assert_eq!(resolve_pointer(&data, "").unwrap(), &data);
    assert_eq!(resolve_pointer(&data, "/").unwrap(), &data);
    assert_eq!(resolve_pointer(&data, "/a~1b").unwrap(), &JsonValue::Number("1".to_string()));
    assert_eq!(resolve_pointer(&data, "/m~0n").unwrap(), &JsonValue::Number("8".to_string()));
}

#[test]
fn resolve_missing_reports_the_path() {
    let data = sample();
    match resolve_pointer(&data, "/items/7") {
        Err(JsonPointerError::PathNotFound(p)) => assert_eq!(p, "/items/7"),
        other => panic!("unexpected: {:?}", other),
    }
    let err = resolve_pointer(&data, "/user/x").unwrap_err();
    assert_eq!(err.message(), "路径不存在: /user/x");
}

#[test]
fn set_then_resolve_gives_the_value() {
    let mut data = sample();
    set_at_pointer(&mut data, "/user/city", s("北京")).unwrap();
    assert_eq!(resolve_pointer(&data, "/user/city").unwrap(), &s("北京"));
    assert_eq!(resolve_pointer(&data, "/user/name").unwrap(), &s("张三"));
}

#[test]
fn set_replaces_an_existing_value() {
    let mut data = sample();
    set_at_pointer(&mut data, "/items/1", s("B")).unwrap();
    assert_eq!(resolve_pointer(&data, "/items/1").unwrap(), &s("B"));
    assert_eq!(resolve_pointer(&data, "/items/0").unwrap(), &s("a"));
}

#[test]
fn write_through_resolved_reference() {
    let mut data = sample();
    *resolve_pointer_mut(&mut data, "/user/name").unwrap() = s("王五");
    assert_eq!(resolve_pointer(&data, "/user/name").unwrap(), &s("王五"));
    assert_eq!(resolve_pointer(&data, "/user/age").unwrap(), &JsonValue::Number("25".to_string()));

    *resolve_pointer_mut(&mut data, "items/2").unwrap() = s("z");
    assert_eq!(resolve_pointer(&data, "/items/2").unwrap(), &s("z"));
    assert_eq!(resolve_pointer(&data, "/items/1").unwrap(), &s("b"));

    *resolve_pointer_mut(&mut data, "/").unwrap() = s("whole");
    assert_eq!(data, s("whole"));
}

#[test]
fn resolve_mut_missing_leaves_data() {
    let mut data = sample();
    match resolve_pointer_mut(&mut data, "/items/3") {
        Err(JsonPointerError::PathNotFound(p)) => assert_eq!(p, "/items/3"),
        other => panic!("unexpected: {:?}", other),
    }
    assert_eq!(data, sample());
}

#[test]
fn failed_set_leaves_data_unchanged() {
    let mut data = JsonValue::Number("5".to_string());
    assert!(matches!(set_at_pointer(&mut data, "/a", s("v")), Err(JsonPointerError::InvalidFormat(_))));
    assert_eq!(data, JsonValue::Number("5".to_string()));

    let mut data = obj(vec![("a", JsonValue::Array(vec![s("x")]))]);
    let before = obj(vec![("a", JsonValue::Array(vec![s("x")]))]);
    assert!(set_at_pointer(&mut data, "/a/0/b/c", s("v")).is_err());
    assert_eq!(data, before);
}
