use aster::json::JsonValue;
use aster::tools::{
    register_all_tools, register_default_tools, KillOutcome, KillShellTool, TaskInput, TaskManagerHandle, TaskTool,
    ToolRegistry,
};
use aster::tool::{PermissionBehavior, ToolError};

fn s(t: &str) -> JsonValue {
    JsonValue::String(t.to_string())
}

fn obj(es: Vec<(&str, JsonValue)>) -> JsonValue {
    JsonValue::Object(es.into_iter().map(|(k, v)| (k.to_string(), v)).collect())
}

#[test]
fn kill_shell_tool_test_tool_name() {
    let tool = KillShellTool::new();
    assert_eq!(tool.name(), "KillShell");
}

#[test]
fn kill_shell_tool_test_tool_options() {
    let tool = KillShellTool::new();
    let options = tool.options();
    assert_eq!(options.max_retries, 0);
    assert_eq!(options.base_timeout_secs, 10);
    assert!(!options.enable_dynamic_timeout);
}

#[test]
fn test_register_default_tools() {
    let mut registry = ToolRegistry::new();
    let _history = register_default_tools(&mut registry);

    assert!(registry.contains("bash"));
    assert!(registry.contains("read"));
    assert!(registry.contains("write"));
    assert!(registry.contains("edit"));
    assert!(registry.contains("glob"));
    assert!(registry.contains("grep"));

    assert!(!registry.contains("ask"));
    assert!(!registry.contains("lsp"));
}

#[test]
fn tools_register_all_with_callbacks() {
    let mut registry = ToolRegistry::new();
    let history = register_all_tools(&mut registry, true, true);
    assert!(registry.contains("ask"));
    assert!(registry.contains("lsp"));
    assert!(!history.has_read("/tmp/test.txt"));
}

#[test]
fn kill_shell_requests_and_results() {
    let tool = KillShellTool::with_task_manager(TaskManagerHandle { id: 7 });
    assert_eq!(tool.task_manager().id, 7);
    assert!(tool.description().contains("kill"));
    assert_eq!(tool.requested_shell(&obj(vec![("task_id", s("t1"))])).unwrap(), "t1");
    assert!(matches!(tool.requested_shell(&obj(vec![])), Err(ToolError::InvalidParams(_))));
    assert!(tool.requested_shell(&obj(vec![("shell_id", JsonValue::Bool(true)), ("task_id", s("t1"))])).is_err());
    let r = tool.kill_result("sh-1", KillOutcome::Killed);
    assert!(r.is_success());
    assert_eq!(r.output.clone().unwrap(), "Successfully killed shell: sh-1");
    assert_eq!(r.metadata_get("killed"), Some(&JsonValue::Bool(true)));
    let r = tool.kill_result("sh-2", KillOutcome::NotFound);
    assert_eq!(r.error.clone().unwrap(), "No shell found with ID: sh-2");
    let r = tool.kill_result("sh-3", KillOutcome::Failed("boom".to_string()));
    assert_eq!(r.error.clone().unwrap(), "Failed to kill shell sh-3: boom");
    assert_eq!(r.metadata_get("killed"), Some(&JsonValue::Bool(false)));
    assert!(tool.check_permissions(&obj(vec![])).is_denied());
    assert!(tool.check_permissions(&obj(vec![("shell_id", s("  "))])).is_denied());
    assert!(tool.check_permissions(&obj(vec![("shell_id", s("x"))])).is_allowed());
}

#[test]
fn task_tool_input_and_results() {
    let tool = TaskTool::new();
    assert_eq!(tool.name(), "Task");
    assert_eq!(tool.check_permissions().behavior, PermissionBehavior::Ask);
    let input = tool.parse_input(&obj(vec![("command", s("ls -la"))])).unwrap();
    assert_eq!(input.command, "ls -la");
    assert_eq!(tool.task_description(&input), "ls -la");
    let long = "x".repeat(60);
    let input = TaskInput { command: long.clone(), description: None, run_in_background: None };
    assert_eq!(tool.task_description(&input), format!("{}...", "x".repeat(47)));
    assert!(tool.parse_input(&obj(vec![])).is_err());
    assert!(tool.parse_input(&obj(vec![("command", s("a")), ("run_in_background", s("yes"))])).is_err());
    let r = tool.started_result("t-1", "desc", "cmd");
    assert_eq!(
        r.output.clone().unwrap(),
        "任务已启动（后台运行）\n任务 ID: t-1\n描述: desc\n命令: cmd\n\n使用 TaskOutput 工具查询任务状态和输出。"
    );
    let r = tool.moved_to_background_result(30, "t-1", "desc");
    assert!(r.output.clone().unwrap().starts_with("任务启动成功但执行时间超过 30秒"));
    assert_eq!(TaskTool::with_manager(TaskManagerHandle { id: 3 }).task_manager().id, 3);
}

#[test]
fn kill_shell_tool_test_tool_description() {
    let tool = KillShellTool::new();
    assert!(!tool.description().is_empty());
    assert!(tool.description().contains("kill"));
    assert!(tool.description().contains("shell"));
}

#[test]
fn kill_shell_tool_test_tool_input_schema() {
    let tool = KillShellTool::new();
    let schema = tool.input_schema();
    assert_eq!(schema.get("type"), Some(&s("object")));
    assert!(schema.get("properties").unwrap().get("shell_id").unwrap().is_object());
    match schema.get("required") {
        Some(JsonValue::Array(rs)) => assert!(rs.contains(&s("shell_id"))),
        other => panic!("unexpected: {:?}", other),
    }
}

#[test]
fn test_builder_with_task_manager() {
    let manager = TaskManagerHandle { id: 42 };
    let tool = KillShellTool::with_task_manager(manager);
    assert_eq!(*tool.task_manager(), manager);
}

#[test]
fn test_register_all_tools_with_config() {
    let mut registry = ToolRegistry::new();
    let _history = register_all_tools(&mut registry, true, true);
    for name in ["bash", "read", "write", "edit", "glob", "grep", "ask", "lsp"] {
        assert!(registry.contains(name), "{}", name);
    }
}

#[test]
fn test_shared_history_is_shared() {
    let mut registry = ToolRegistry::new();
    let mut history = register_default_tools(&mut registry);
    assert!(!history.has_read("/tmp/test.txt"));
    history.record_read(aster::read::FileReadRecord { path: "/tmp/test.txt".to_string(), size: 100, line_count: 1 });
    assert!(history.has_read("/tmp/test.txt"));
}

#[test]
fn test_task_tool_input_schema() {
    let tool = TaskTool::new();
    let schema = tool.input_schema();

    assert_eq!(schema.get("type").unwrap(), &s("object"));
    assert!(schema.get("properties").unwrap().get("command").unwrap().is_object());
    assert_eq!(schema.get("required").unwrap(), &JsonValue::Array(vec![s("command")]));
}

#[test]
fn test_check_permissions_valid_shell_id() {
    let tool = KillShellTool::new();
    let params = obj(vec![("shell_id", s("test-task-123"))]);
    assert!(tool.check_permissions(&params).is_allowed());
}

#[test]
fn test_check_permissions_task_id_alias() {
    let tool = KillShellTool::new();
    let params = obj(vec![("task_id", s("test-task-123"))]);
    assert!(tool.check_permissions(&params).is_allowed());
}

#[test]
fn test_check_permissions_missing_shell_id() {
    let tool = KillShellTool::new();
    assert!(tool.check_permissions(&obj(vec![])).is_denied());
}

#[test]
fn test_check_permissions_empty_shell_id() {
    let tool = KillShellTool::new();
    assert!(tool.check_permissions(&obj(vec![("shell_id", s(""))])).is_denied());
}

#[test]
fn test_execute_missing_shell_id() {
    let tool = KillShellTool::new();
    assert!(matches!(tool.requested_shell(&obj(vec![])), Err(ToolError::InvalidParams(_))));
}

#[test]
fn test_execute_nonexistent_task() {
    let tool = KillShellTool::new();
    let id = tool.requested_shell(&obj(vec![("shell_id", s("nonexistent-task"))])).unwrap();
    let r = tool.kill_result(&id, KillOutcome::NotFound);
    assert!(r.is_error());
    assert!(r.error.unwrap().contains("No shell found"));
}
