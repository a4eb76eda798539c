use aster::agent_control::{
    normalize_message, normalize_optional_text, send_message_input_schema, normalize_required_text, route_in_team, route_to_child,
    send_message_result, send_request, Delivery, MessageInput, ResolvedSendTarget, SendInputResponse, TeamContext,
    TeamMember,
};
use aster::json::JsonValue;
use aster::tool::ToolError;

fn member(name: &str, id: &str) -> TeamMember {
    TeamMember { name: name.to_string(), agent_id: id.to_string() }
}

fn team() -> TeamContext {
    TeamContext {
        members: vec![member("lead", "a"), member("dev", "b"), member("qa", "c")],
        current_agent_id: "a".to_string(),
    }
}

fn pairs(ts: &[ResolvedSendTarget]) -> Vec<(String, String)> {
    ts.iter().map(|t| (t.display_name.clone(), t.agent_id.clone())).collect()
}

fn failed(e: ToolError) -> String {
    match e {
        ToolError::ExecutionFailed(m) => m,
        other => panic!("unexpected: {:?}", other),
    }
}

#[test]
fn required_and_optional_text() {
    assert_eq!(normalize_required_text("  hi ", "to").unwrap(), "hi");
    assert_eq!(normalize_required_text("   ", "to"), Err(ToolError::InvalidParams("to 不能为空".to_string())));
    assert_eq!(normalize_optional_text(Some("  ".to_string())), None);
    assert_eq!(normalize_optional_text(Some(" s ".to_string())), Some("s".to_string()));
    assert_eq!(normalize_optional_text(None), None);
    let structured = JsonValue::Object(vec![
        ("kind".to_string(), JsonValue::String("follow_up".to_string())),
        ("n".to_string(), JsonValue::Number("2".to_string())),
        ("a".to_string(), JsonValue::Array(vec![JsonValue::Bool(true), JsonValue::Null])),
    ]);
    assert_eq!(
        normalize_message(&MessageInput::Structured(structured)).unwrap(),
        "{\"a\":[true,null],\"kind\":\"follow_up\",\"n\":2}"
    );
    assert_eq!(
        normalize_message(&MessageInput::Structured(JsonValue::String(" x\n".to_string()))).unwrap(),
        "\" x\\n\""
    );
    match normalize_message(&MessageInput::Structured(JsonValue::Number("not-a-number".to_string()))) {
        Err(ToolError::InvalidParams(m)) => assert!(m.starts_with("SendMessage 无法序列化结构化消息: ")),
        other => panic!("unexpected: {:?}", other),
    }
    assert_eq!(
        normalize_message(&MessageInput::Text(" \n".to_string())),
        Err(ToolError::InvalidParams("message 不能为空".to_string()))
    );
}

#[test]
fn team_routes() {
    let t = Ok(Some(team()));
    let all = route_in_team("*", &t).unwrap().unwrap();
    assert_eq!(pairs(&all), vec![("dev".to_string(), "b".to_string()), ("qa".to_string(), "c".to_string())]);
    let one = route_in_team("dev", &t).unwrap().unwrap();
    assert_eq!(pairs(&one), vec![("dev".to_string(), "b".to_string())]);
    assert_eq!(failed(route_in_team("lead", &t).unwrap_err()), "不能把消息发送给当前 session 自己");
    assert!(route_in_team("other", &t).unwrap().is_none());
    assert_eq!(failed(route_in_team("*", &Ok(None)).unwrap_err()), "当前 session 不在活跃 team 中，无法使用 `*` 广播");
    assert!(route_in_team("dev", &Ok(None)).unwrap().is_none());
    assert_eq!(failed(route_in_team("dev", &Err("io".to_string())).unwrap_err()), "读取 team 状态失败: io");
    let alone = Ok(Some(TeamContext { members: vec![member("lead", "a")], current_agent_id: "a".to_string() }));
    assert_eq!(failed(route_in_team("*", &alone).unwrap_err()), "当前 team 没有其他成员可接收消息");
}

#[test]
fn child_routes() {
    let r = route_to_child("worker", &Ok(Some("child-1".to_string()))).unwrap();
    assert_eq!(pairs(&r), vec![("worker".to_string(), "child-1".to_string())]);
    let r = route_to_child("agent-9", &Ok(None)).unwrap();
    assert_eq!(pairs(&r), vec![("agent-9".to_string(), "agent-9".to_string())]);
    assert_eq!(failed(route_to_child("w", &Err("x".to_string())).unwrap_err()), "读取命名子 agent 路由失败: x");
}

#[test]
fn send_message_results() {
    let target = ResolvedSendTarget { display_name: "dev".to_string(), agent_id: "b".to_string() };
    let req = send_request(&target, "hello");
    assert_eq!(req.id, "b");
    assert_eq!(req.message, "hello");
    assert!(!req.interrupt);

    let d = Delivery { target, response: SendInputResponse { submission_id: "s1".to_string(), extra: vec![] } };
    let r = send_message_result("dev", Some("hi".to_string()), vec![d]);
    assert!(r.success);
    assert_eq!(r.output.as_deref(), Some("Message sent to dev"));
    let meta = r.metadata_get("send_message").unwrap();
    assert_eq!(meta.get("success"), Some(&JsonValue::Bool(true)));
    assert_eq!(meta.get("target"), Some(&JsonValue::String("dev".to_string())));
    assert_eq!(meta.get("summary"), Some(&JsonValue::String("hi".to_string())));
    match meta.get("deliveries") {
        Some(JsonValue::Array(ds)) => {
            assert_eq!(ds.len(), 1);
            assert_eq!(ds[0].get("agentId"), Some(&JsonValue::String("b".to_string())));
            assert_eq!(ds[0].get("submissionId"), Some(&JsonValue::String("s1".to_string())));
        },
        other => panic!("unexpected: {:?}", other),
    }

    let two: Vec<Delivery> = ["b", "c"]
        .iter()
        .map(|id| Delivery {
            target: ResolvedSendTarget { display_name: id.to_string(), agent_id: id.to_string() },
            response: SendInputResponse { submission_id: "s".to_string(), extra: vec![] },
        })
        .collect();
    let r = send_message_result("*", None, two);
    assert_eq!(r.output.as_deref(), Some("Message sent to 2 teammates"));
    assert_eq!(r.metadata_get("send_message").unwrap().get("summary"), None);
}

#[test]
fn send_message_schema_requires_target_and_message() {
    let schema = send_message_input_schema();
    let props = schema.get("properties").unwrap();
    assert!(props.get("to").is_some());
    assert!(props.get("summary").is_some());
    assert!(props.get("message").unwrap().get("oneOf").unwrap().is_array());
    assert_eq!(
        schema.get("required").unwrap(),
        &JsonValue::Array(vec![JsonValue::String("to".to_string()), JsonValue::String("message".to_string())])
    );
    assert_eq!(schema.get("additionalProperties").unwrap(), &JsonValue::Bool(false));
}

#[test]
fn structured_message_is_sent_as_compact_json() {
    let message = JsonValue::Object(vec![("kind".to_string(), JsonValue::String("follow_up".to_string()))]);
    let text = normalize_message(&MessageInput::Structured(message)).unwrap();
    assert_eq!(text, "{\"kind\":\"follow_up\"}");
    let target = ResolvedSendTarget { display_name: "agent-7".to_string(), agent_id: "agent-7".to_string() };
    let request = send_request(&target, &text);
    assert_eq!(request.id, "agent-7");
    assert_eq!(request.message, "{\"kind\":\"follow_up\"}");
    assert!(!request.interrupt);
}
