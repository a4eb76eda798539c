use aster::json::JsonValue;
use aster::tool::{ToolContext, ToolError};
use aster::workflow::{
    parse_workflow_params, post_action_info, pre_action_info, workflow_result, HookManagerHandle,
    WorkflowIntegratedTool, WorkflowIntegratedToolBuilder,
};

fn s(t: &str) -> JsonValue {
    JsonValue::String(t.to_string())
}

fn obj(es: Vec<(&str, JsonValue)>) -> JsonValue {
    JsonValue::Object(es.into_iter().map(|(k, v)| (k.to_string(), v)).collect())
}

fn create_test_context() -> ToolContext {
    ToolContext::new("/tmp".to_string()).with_session_id("test-session").with_user("test-user")
}

fn run(params: &JsonValue, context: &ToolContext) -> aster::tool::ToolResult {
    let p = parse_workflow_params(params).unwrap();
    let pre = pre_action_info(context);
    let failed = p.simulate_error == Some(true);
    let post = post_action_info(if failed { Some("模拟错误：操作失败") } else { None });
    workflow_result(&p, &pre, "2024-01-01T00:00:00Z", &post)
}

#[test]
fn test_workflow_integrated_tool_success() {
    let context = create_test_context();
    let params = obj(vec![("action", s("analyze")), ("description", s("分析测试数据")), ("simulate_error", JsonValue::Bool(false))]);
    let result = run(&params, &context);
    assert!(result.is_success());
    assert!(result.content().contains("Pre-Action 信息"));
    assert!(result.content().contains("Post-Action 状态更新"));
    assert_eq!(result.metadata_get("action"), Some(&s("analyze")));
}

#[test]
fn test_workflow_integrated_tool_error() {
    let context = create_test_context();
    let params = obj(vec![("action", s("process")), ("description", s("处理错误测试")), ("simulate_error", JsonValue::Bool(true))]);
    let result = run(&params, &context);
    assert!(!result.is_success());
    assert!(result.content().contains("操作失败"));
    assert!(result.content().contains("Post-Action 状态更新"));
    assert!(result.content().contains("错误处理"));
    assert!(result.metadata_get("error").is_some());
    assert!(result.metadata_get("post_action_info").is_some());
}

#[test]
fn test_workflow_builder() {
    let tool = WorkflowIntegratedToolBuilder::new()
        .with_name("custom_workflow_tool".to_string())
        .with_description("自定义工作流工具".to_string())
        .with_hook_manager(HookManagerHandle { id: 7 })
        .build();
    assert_eq!(tool.name, "custom_workflow_tool");
    assert_eq!(tool.description, "自定义工作流工具");
    assert!(tool.hook_manager.is_some());
}

#[test]
fn default_tool_and_hooks() {
    let tool = WorkflowIntegratedTool::new();
    assert_eq!(tool.name, "workflow_integrated_tool");
    assert!(tool.hook_manager.is_none());
    let tool = tool.with_hook_manager(HookManagerHandle { id: 1 });
    assert_eq!(tool.hook_manager, Some(HookManagerHandle { id: 1 }));
}

#[test]
fn params_and_reports() {
    assert!(matches!(parse_workflow_params(&obj(vec![("action", s("a"))])), Err(ToolError::InvalidParams(_))));
    let p = parse_workflow_params(&obj(vec![("action", s("a")), ("description", s("d"))])).unwrap();
    assert_eq!(p.simulate_error, None);
    let pre = pre_action_info(&create_test_context());
    assert_eq!(
        pre,
        "🔄 Pre-Action 上下文刷新:\n\n工作目录: \"/tmp\"\n会话ID: test-session\n用户: test-user\n\n⚠️ 准备执行工具操作，请确认目标明确"
    );
    let unknown = pre_action_info(&ToolContext::new("/w".to_string()));
    assert!(unknown.contains("会话ID: 未知\n用户: 未知"));
    assert!(post_action_info(None).contains("✅ 操作成功完成"));
    assert!(post_action_info(Some("boom")).contains("🚨 错误处理: boom"));
}

#[test]
fn workflow_schema_requires_action_and_description() {
    let schema = WorkflowIntegratedTool::new().input_schema();
    assert_eq!(schema.get("type").unwrap(), &s("object"));
    let props = schema.get("properties").unwrap();
    assert!(props.get("simulate_error").unwrap().is_object());
    assert_eq!(schema.get("required").unwrap(), &JsonValue::Array(vec![s("action"), s("description")]));
}

#[test]
fn pre_action_writes_the_directory_as_path_debug() {
    let context = ToolContext::new("/tmp/it's".to_string()).with_session_id("s1");
    let text = pre_action_info(&context);
    assert!(text.contains("工作目录: \"/tmp/it's\""), "{}", text);
    let context = ToolContext::new("/tmp/a\"b".to_string());
    assert!(pre_action_info(&context).contains("工作目录: \"/tmp/a\\\"b\""));
}
