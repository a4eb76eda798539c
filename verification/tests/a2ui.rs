use aster::a2ui::{ErrorCode, Theme};

#[test]
fn error_codes_from_the_wire() {
    assert_eq!(ErrorCode::from_wire("VALIDATION_FAILED"), ErrorCode::ValidationFailed);
    assert_eq!(ErrorCode::from_wire("validation_failed"), ErrorCode::Other);
    assert_eq!(ErrorCode::from_wire("TIMEOUT"), ErrorCode::Other);
}

#[test]
fn empty_theme() {
    let t = Theme::new();
    assert!(t.primary_color.is_none() && t.icon_url.is_none() && t.agent_display_name.is_none());
}

use aster::a2ui::{
    and, email, format_date, format_string, length, not, open_url, or, regex, required, DataBinding, DynamicBoolean,
    DynamicString, FunctionCall, ReturnType,
};
use aster::json::JsonValue;

fn s(t: &str) -> JsonValue {
    JsonValue::String(t.to_string())
}

fn obj(es: Vec<(&str, JsonValue)>) -> JsonValue {
    JsonValue::Object(es.into_iter().map(|(k, v)| (k.to_string(), v)).collect())
}

fn lit(t: &str) -> DynamicString {
    DynamicString::Literal(t.to_string())
}

#[test]
fn validation_calls() {
    let c = required(lit("name"));
    assert_eq!(c.call, "required");
    assert_eq!(c.return_type, Some(ReturnType::Boolean));
    assert_eq!(c.args, Some(obj(vec![("value", s("name"))])));

    let c = regex(DynamicString::Binding(DataBinding { path: "/user/email".to_string() }), "^a");
    assert_eq!(c.args, Some(obj(vec![("value", obj(vec![("path", s("/user/email"))])), ("pattern", s("^a"))])));

    let c = length(lit("x"), Some(1), None);
    assert_eq!(c.args, Some(obj(vec![("value", s("x")), ("min", JsonValue::Number("1".to_string()))])));
    let c = length(lit("x"), None, Some(20));
    assert_eq!(c.args, Some(obj(vec![("value", s("x")), ("max", JsonValue::Number("20".to_string()))])));

    assert_eq!(email(lit("e")).call, "email");
}

#[test]
fn format_and_logic_calls() {
    let c = format_string(lit("Hi ${/name}"));
    assert_eq!(c.return_type, Some(ReturnType::String));
    let c = format_date(lit("2026-01-01"), "yyyy-MM-dd");
    assert_eq!(c.args, Some(obj(vec![("value", s("2026-01-01")), ("format", s("yyyy-MM-dd"))])));

    let inner = FunctionCall { call: "email".to_string(), args: None, return_type: Some(ReturnType::Boolean) };
    let c = and(vec![DynamicBoolean::Literal(true), DynamicBoolean::Function(inner)]);
    assert_eq!(
        c.args,
        Some(obj(vec![(
            "values",
            JsonValue::Array(vec![JsonValue::Bool(true), obj(vec![("call", s("email")), ("returnType", s("boolean"))])])
        )]))
    );
    assert_eq!(or(vec![]).args, Some(obj(vec![("values", JsonValue::Array(vec![]))])));
    assert_eq!(not(DynamicBoolean::Literal(false)).args, Some(obj(vec![("value", JsonValue::Bool(false))])));
    let c = open_url("https://a.example");
    assert_eq!(c.return_type, Some(ReturnType::Void));
    assert_eq!(c.args, Some(obj(vec![("url", s("https://a.example"))])));
}
