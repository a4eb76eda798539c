use aster::json::JsonValue;
use aster::routes::{
    context_status_error, map_context_error, memory_extract_status, reply_settings, reply_step, sse_frame,
    to_read_response, track_tool_telemetry, ChatRequest, ContextReadResult, Message, MessageContent, ReplyAction,
    ReplyEvent, ToolTelemetry, STATUS_BAD_REQUEST,
    STATUS_INTERNAL_ERROR, STATUS_NOT_FOUND,
};
use aster::trace::{ContextTraceLevel, ContextTraceStep};

fn request() -> ChatRequest {
    ChatRequest {
        user_message: JsonValue::Null,
        conversation_so_far: None,
        session_id: "s1".to_string(),
        recipe_name: None,
        recipe_version: None,
        include_context_trace: None,
        context_trace_level: None,
        context_trace_redact: None,
    }
}

#[test]
fn context_errors_get_their_status() {
    let e = map_context_error("L1", "文件未找到");
    assert_eq!(e.status, STATUS_NOT_FOUND);
    assert_eq!(e.message, "读取 L1 层失败: 文件未找到");
    assert_eq!(map_context_error("L2", "No such file or directory (os error 2)").status, STATUS_NOT_FOUND);
    assert_eq!(map_context_error("L2", "bad uri").status, STATUS_BAD_REQUEST);
    let e = context_status_error("disk");
    assert_eq!(e.status, STATUS_INTERNAL_ERROR);
    assert_eq!(e.message, "读取 context 状态失败: disk");
    assert_eq!(memory_extract_status("Session not found: s1"), 404);
    assert_eq!(memory_extract_status("db locked"), 500);
}

#[test]
fn read_response_keeps_the_trace_only_when_asked() {
    let result = || ContextReadResult {
        uri: "ctx://a".to_string(),
        layer: "L0".to_string(),
        content: "c".to_string(),
        source_path: "/p".to_string(),
        trace: vec![ContextTraceStep { stage: "resolve".to_string(), detail: "ok".to_string() }],
    };
    let r = to_read_response(result(), false);
    assert!(r.trace.is_none());
    assert_eq!(r.uri, "ctx://a");
    let r = to_read_response(result(), true);
    let t = r.trace.unwrap();
    assert_eq!(t.len(), 1);
    assert_eq!(t[0].stage, "resolve");
}

#[test]
fn reply_settings_defaults() {
    let s = reply_settings(&request());
    assert!(!s.include_context_trace);
    assert_eq!(s.context_trace_level, ContextTraceLevel::Basic);
    assert!(s.context_trace_redact);
    let mut req = request();
    req.include_context_trace = Some(true);
    req.context_trace_level = Some(ContextTraceLevel::Verbose);
    req.context_trace_redact = Some(false);
    let s = reply_settings(&req);
    assert!(s.include_context_trace && !s.context_trace_redact);
    assert_eq!(s.context_trace_level, ContextTraceLevel::Verbose);
}

#[test]
fn reply_stream_steps() {
    let s = reply_settings(&request());
    match reply_step(s, ReplyEvent::AgentUnavailable("x".to_string())) {
        ReplyAction::Abort(m) => assert_eq!(m, "Failed to get session agent: x"),
        _ => panic!("expected abort"),
    }
    match reply_step(s, ReplyEvent::SessionUnavailable("y".to_string())) {
        ReplyAction::Abort(m) => assert_eq!(m, "Failed to read session: y"),
        _ => panic!("expected abort"),
    }
    match reply_step(s, ReplyEvent::StreamError("z".to_string())) {
        ReplyAction::FailAndFinish(m) => assert_eq!(m, "z"),
        _ => panic!("expected error then finish"),
    }
    assert!(matches!(reply_step(s, ReplyEvent::Message), ReplyAction::SendMessage));
    assert!(matches!(reply_step(s, ReplyEvent::StreamEnd), ReplyAction::Finish));
    assert!(matches!(reply_step(s, ReplyEvent::Idle { client_gone: true }), ReplyAction::Finish));
    assert!(matches!(reply_step(s, ReplyEvent::Idle { client_gone: false }), ReplyAction::Wait));
    assert!(matches!(reply_step(s, ReplyEvent::Heartbeat), ReplyAction::SendPing));
    assert!(matches!(reply_step(s, ReplyEvent::Cancelled), ReplyAction::Finish));
    let steps = vec![ContextTraceStep { stage: "load".to_string(), detail: "file".to_string() }];
    match reply_step(s, ReplyEvent::ContextTrace(steps)) {
        ReplyAction::SendContextTrace(out) => assert_eq!(out[0].stage, "load"),
        _ => panic!("expected trace"),
    }
}

#[test]
fn sse_frames() {
    assert_eq!(sse_frame("{\"a\":1}"), "data: {\"a\":1}\n\n");
}

#[test]
fn tool_telemetry_names_calls_by_request_id() {
    let req = |id: &str, name: Option<&str>| MessageContent::ToolRequest { id: id.to_string(), tool_name: name.map(|n| n.to_string()) };
    let history = vec![
        Message { content: vec![req("c1", Some("old_read")), MessageContent::Other] },
        Message { content: vec![MessageContent::Other, req("c1", Some("read")), req("c1", Some("write")), req("c2", None)] },
    ];
    assert_eq!(
        track_tool_telemetry(&req("c3", Some("bash")), &history),
        Some(ToolTelemetry::CallStarted { tool_name: "bash".to_string() })
    );
    assert_eq!(track_tool_telemetry(&req("c3", None), &history), None);
    assert_eq!(track_tool_telemetry(&MessageContent::Other, &history), None);
    assert_eq!(
        track_tool_telemetry(&MessageContent::ToolResponse { id: "c1".to_string(), success: true }, &history),
        Some(ToolTelemetry::CallCompleted { tool_name: "read".to_string(), result: "success".to_string() })
    );
    assert_eq!(
        track_tool_telemetry(&MessageContent::ToolResponse { id: "c2".to_string(), success: false }, &history),
        Some(ToolTelemetry::CallCompleted { tool_name: "unknown".to_string(), result: "error".to_string() })
    );
}
