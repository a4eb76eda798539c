use aster::trace::{
    extract_key_value, redact_key_value, redact_trace_detail, redact_unix_paths,
    simplify_trace_detail, transform_context_trace_steps, ContextTraceLevel, ContextTraceStep,
};

fn step(stage: &str, detail: &str) -> ContextTraceStep {
    ContextTraceStep { stage: stage.to_string(), detail: detail.to_string() }
}

#[test]
fn test_transform_context_trace_basic_and_redacted() {
    let steps = vec![
        step("session", "session_id=test-session-123"),
        step("tools_ready", "tools=4, toolshim_tools=1, system_prompt_chars=1200"),
    ];
    let transformed = transform_context_trace_steps(steps, ContextTraceLevel::Basic, true);
    assert_eq!(transformed.len(), 2);
    assert_eq!(transformed[0].detail, "session initialized");
    assert_eq!(transformed[1].detail, "tools=4, toolshim_tools=1");
}

#[test]
fn test_transform_context_trace_verbose_redacts_sensitive_values() {
    let steps = vec![step(
        "session",
        "session_id=test-session-123, cwd=/Users/coso/Documents/dev/ai/astercloud/aster-rust",
    )];
    let transformed = transform_context_trace_steps(steps, ContextTraceLevel::Verbose, true);
    assert_eq!(transformed.len(), 1);
    assert!(transformed[0].detail.contains("session_id=<redacted>"));
    assert!(transformed[0].detail.contains("cwd=<path>"));
}

#[test]
fn extract_key_value_finds_first_trimmed_part() {
    assert_eq!(extract_key_value("a=1,  b=2 , b=3", "b="), Some("2".to_string()));
    assert_eq!(extract_key_value("a=1", "b="), None);
    assert_eq!(extract_key_value("", "a="), None);
}

#[test]
fn simplify_known_stages() {
    assert_eq!(simplify_trace_detail("conversation_input", "messages=7"), "messages=7");
    assert_eq!(simplify_trace_detail("conversation_input", "nothing"), "conversation captured");
    assert_eq!(simplify_trace_detail("conversation_fixed", "issues=2"), "messages=?, issues=2");
    assert_eq!(simplify_trace_detail("mode", "auto mode"), "auto mode");
    assert_eq!(simplify_trace_detail("other", "x"), "step completed");
}

#[test]
fn redaction_keeps_surrounding_text() {
    assert_eq!(
        redact_key_value("a session_id=abc def", "session_id="),
        "a session_id=<redacted> def"
    );
    assert_eq!(redact_key_value("no key here", "session_id="), "no key here");
    assert_eq!(redact_unix_paths("path=/tmp/x,y a/b (/etc"), "path=<path>,y a/b (<path>");
    assert_eq!(redact_unix_paths("/root"), "<path>");
    assert_eq!(
        redact_trace_detail("session_id=s1 cwd=/home/u"),
        "session_id=<redacted> cwd=<path>"
    );
}

#[test]
fn transform_without_redaction_keeps_verbose_detail() {
    let out = transform_context_trace_steps(
        vec![step("session", "session_id=x cwd=/a")],
        ContextTraceLevel::Verbose,
        false,
    );
    assert_eq!(out[0].stage, "session");
    assert_eq!(out[0].detail, "session_id=x cwd=/a");
}
