use aster::json::JsonValue;
use aster::todo::{TodoItem, TodoStatus, TodoStorage, TodoWriteTool};
use aster::tool::ToolContext;

fn create_test_context() -> ToolContext {
    ToolContext::new("/tmp".to_string()).with_session_id("test-session").with_user("test-user")
}

#[test]
fn test_todo_item_creation() {
    let todo = TodoItem::new("Run tests", "Running tests");
    assert_eq!(todo.content, "Run tests");
    assert_eq!(todo.active_form, "Running tests");
    assert_eq!(todo.status, TodoStatus::Pending);
    assert!(!todo.is_in_progress());
    assert!(!todo.is_completed());
}

#[test]
fn test_todo_item_with_status() {
    let todo = TodoItem::with_status("Build project", "Building project", TodoStatus::InProgress);
    assert_eq!(todo.content, "Build project");
    assert_eq!(todo.active_form, "Building project");
    assert_eq!(todo.status, TodoStatus::InProgress);
    assert!(todo.is_in_progress());
    assert!(!todo.is_completed());
}

#[test]
fn test_todo_storage_basic_operations() {
    let mut storage = TodoStorage::new();
    let agent_id = "test-agent";
    assert!(storage.get_todos(agent_id).is_empty());
    let todos = vec![
        TodoItem::new("Task 1", "Doing task 1"),
        TodoItem::with_status("Task 2", "Doing task 2", TodoStatus::InProgress),
    ];
    storage.set_todos(agent_id, todos.clone());
    let retrieved = storage.get_todos(agent_id);
    assert_eq!(retrieved.len(), 2);
    assert_eq!(retrieved[0].content, "Task 1");
    assert_eq!(retrieved[1].content, "Task 2");
    assert_eq!(retrieved[1].status, TodoStatus::InProgress);
    storage.set_todos(agent_id, vec![]);
    assert!(storage.get_todos(agent_id).is_empty());
}

#[test]
fn test_todo_storage_multi_agent() {
    let mut storage = TodoStorage::new();
    storage.set_todos("agent-1", vec![TodoItem::new("Agent 1 Task", "Doing agent 1 task")]);
    storage.set_todos("agent-2", vec![TodoItem::new("Agent 2 Task", "Doing agent 2 task")]);
    let todos1 = storage.get_todos("agent-1");
    let todos2 = storage.get_todos("agent-2");
    assert_eq!(todos1.len(), 1);
    assert_eq!(todos2.len(), 1);
    assert_eq!(todos1[0].content, "Agent 1 Task");
    assert_eq!(todos2[0].content, "Agent 2 Task");
}

#[test]
fn test_todo_storage_stats() {
    let mut storage = TodoStorage::new();
    let agent_id = "test-agent";
    storage.set_todos(
        agent_id,
        vec![
            TodoItem::new("Pending task", "Doing pending task"),
            TodoItem::with_status("In progress task", "Doing in progress task", TodoStatus::InProgress),
            TodoItem::with_status("Completed task", "Doing completed task", TodoStatus::Completed),
        ],
    );
    let stats = storage.get_stats();
    assert_eq!(stats.len(), 1);
    let entry = stats.iter().find(|(k, _)| k == agent_id).unwrap();
    assert_eq!(entry.1, (1, 1, 1));
}

#[test]
fn todo_write_tool_test_tool_name() {
    let tool = TodoWriteTool::new();
    assert_eq!(tool.name(), "TodoWrite");
}

#[test]
fn todo_write_tool_test_tool_options() {
    let tool = TodoWriteTool::new();
    let options = tool.options();
    assert_eq!(options.max_retries, 0);
    assert_eq!(options.base_timeout_secs, 5);
    assert!(!options.enable_dynamic_timeout);
}

#[test]
fn test_builder_with_default_agent_id() {
    let tool = TodoWriteTool::new().with_default_agent_id("custom-agent");
    assert_eq!(tool.default_agent_id(), "custom-agent");
}

#[test]
fn test_validate_todos_success() {
    let tool = TodoWriteTool::new();
    let todos = vec![
        TodoItem::new("Task 1", "Doing task 1"),
        TodoItem::with_status("Task 2", "Doing task 2", TodoStatus::InProgress),
    ];
    assert!(tool.validate_todos(&todos).is_ok());
}

#[test]
fn test_validate_todos_multiple_in_progress() {
    let tool = TodoWriteTool::new();
    let todos = vec![
        TodoItem::with_status("Task 1", "Doing task 1", TodoStatus::InProgress),
        TodoItem::with_status("Task 2", "Doing task 2", TodoStatus::InProgress),
    ];
    let result = tool.validate_todos(&todos);
    assert!(result.is_err());
    assert!(result.unwrap_err().contains("Only one task can be in_progress"));
}

#[test]
fn test_validate_todos_empty_content() {
    let tool = TodoWriteTool::new();
    let result = tool.validate_todos(&[TodoItem::new("", "Doing something")]);
    assert!(result.is_err());
    assert!(result.unwrap_err().contains("Task content cannot be empty"));
}

#[test]
fn test_validate_todos_empty_active_form() {
    let tool = TodoWriteTool::new();
    let result = tool.validate_todos(&[TodoItem::new("Do something", "")]);
    assert!(result.is_err());
    assert!(result.unwrap_err().contains("Task active_form cannot be empty"));
}

#[test]
fn test_get_agent_id_from_environment() {
    let tool = TodoWriteTool::new();
    let context = create_test_context().with_env_var("AGENT_ID", "env-agent");
    assert_eq!(tool.get_agent_id(&context), "env-agent");
}

#[test]
fn test_get_agent_id_from_session() {
    let tool = TodoWriteTool::new();
    assert_eq!(tool.get_agent_id(&create_test_context()), "test-session");
}

#[test]
fn test_get_agent_id_default() {
    let tool = TodoWriteTool::new();
    let context = ToolContext::new("/tmp".to_string());
    assert_eq!(tool.get_agent_id(&context), "main");
}

#[test]
fn test_execute_simple_todos() {
    let mut tool = TodoWriteTool::new();
    let context = create_test_context();
    let r = tool.write_todos(
        vec![
            TodoItem::new("Run tests", "Running tests"),
            TodoItem::with_status("Build project", "Building project", TodoStatus::InProgress),
        ],
        &context,
    );
    assert!(r.is_success());
    assert!(r.output.as_ref().unwrap().contains("modified successfully"));
    let saved = tool.storage().get_todos("test-session");
    assert_eq!(saved.len(), 2);
    assert_eq!(saved[1].status, TodoStatus::InProgress);
    assert_eq!(r.metadata_get("agent_id"), Some(&JsonValue::String("test-session".to_string())));
    assert_eq!(r.metadata_get("auto_cleared"), Some(&JsonValue::Bool(false)));
}

#[test]
fn test_execute_auto_clear_completed() {
    let mut tool = TodoWriteTool::new();
    let context = create_test_context();
    let r = tool.write_todos(
        vec![
            TodoItem::with_status("Task 1", "Doing task 1", TodoStatus::Completed),
            TodoItem::with_status("Task 2", "Doing task 2", TodoStatus::Completed),
        ],
        &context,
    );
    assert!(r.output.unwrap().contains("All tasks completed"));
    assert!(tool.storage().get_todos("test-session").is_empty());
    assert_eq!(r.metadata.iter().find(|(k, _)| k == "auto_cleared").map(|p| &p.1), Some(&JsonValue::Bool(true)));
}

#[test]
fn test_execute_invalid_todos() {
    let mut tool = TodoWriteTool::new();
    let r = tool.write_todos(
        vec![
            TodoItem::with_status("Task 1", "Doing task 1", TodoStatus::InProgress),
            TodoItem::with_status("Task 2", "Doing task 2", TodoStatus::InProgress),
        ],
        &create_test_context(),
    );
    assert!(r.is_error());
    assert!(r.error.unwrap().contains("Only one task can be in_progress"));
    assert!(tool.check_todos_permission(&[TodoItem::new("", "x")]).is_denied());
    assert!(tool.check_todos_permission(&[TodoItem::new("a", "x")]).is_allowed());
}

#[test]
fn todo_write_tool_test_tool_description() {
    let tool = TodoWriteTool::new();
    assert!(!tool.description().is_empty());
    assert!(tool.description().contains("task list"));
    assert!(tool.description().contains("progress"));
}

#[test]
fn todo_write_tool_test_tool_input_schema() {
    let tool = TodoWriteTool::new();
    let schema = tool.input_schema();
    assert_eq!(schema.get("type"), Some(&JsonValue::String("object".to_string())));
    assert!(schema.get("properties").unwrap().get("todos").unwrap().is_object());
    match schema.get("required") {
        Some(JsonValue::Array(rs)) => assert!(rs.contains(&JsonValue::String("todos".to_string()))),
        other => panic!("unexpected: {:?}", other),
    }
}

#[test]
fn test_builder_with_storage() {
    let mut storage = TodoStorage::new();
    storage.set_todos("agent-1", vec![TodoItem::new("Run tests", "Running tests")]);
    let tool = TodoWriteTool::with_storage(storage);
    assert_eq!(tool.storage().get_todos("agent-1").len(), 1);
}

#[test]
fn test_check_permissions_valid_input() {
    let tool = TodoWriteTool::new();
    assert!(tool.check_todos_permission(&[TodoItem::new("Test task", "Testing task")]).is_allowed());
}

#[test]
fn test_check_permissions_multiple_in_progress() {
    let tool = TodoWriteTool::new();
    let todos = vec![
        TodoItem::with_status("Task 1", "Doing task 1", TodoStatus::InProgress),
        TodoItem::with_status("Task 2", "Doing task 2", TodoStatus::InProgress),
    ];
    assert!(tool.check_todos_permission(&todos).is_denied());
}

#[test]
fn test_execute_with_metadata() {
    let mut storage = TodoStorage::new();
    storage.set_todos("test-session", vec![TodoItem::new("Old task", "Doing old task")]);
    let mut tool = TodoWriteTool::with_storage(storage);
    let r = tool.write_todos(vec![TodoItem::new("New task", "Doing new task")], &create_test_context());
    assert!(r.is_success());
    assert_eq!(r.metadata_get("agent_id"), Some(&JsonValue::String("test-session".to_string())));
    assert!(r.metadata_get("old_todos").is_some());
    assert!(r.metadata_get("new_todos").is_some());
    assert_eq!(r.metadata_get("auto_cleared"), Some(&JsonValue::Bool(false)));
}
