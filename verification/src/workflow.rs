//! A tool that runs an action between a pre-action and a post-action stage:
//! its configuration, its input, and the texts each stage reports. The hooks
//! each stage triggers run outside.

use vstd::prelude::*;
use crate::json::{JsonValue, member, json_str};
use crate::tool::{ToolError, ToolResult, ToolContext, metadata_value};

verus! {

/// Which hook manager a tool reports to (the managers live outside).
#[derive(Debug, Clone, Copy, PartialEq, Eq, Structural)]
pub struct HookManagerHandle {
    pub id: u64,
}

/// A schema property of the given type, with its description.
fn typed_property(t: &str, description: &str) -> (r: JsonValue)
    ensures
        r is Object,
{
    JsonValue::Object(vec![
        (String::from_str("type"), json_str(t)),
        (String::from_str("description"), json_str(description)),
    ])
}

/// The workflow tool: its name, description and hook manager.
#[derive(Debug, Clone)]
pub struct WorkflowIntegratedTool {
    pub name: String,
    pub description: String,
    pub hook_manager: Option<HookManagerHandle>,
}

pub const WORKFLOW_TOOL_NAME: &'static str = "workflow_integrated_tool";
pub const WORKFLOW_TOOL_DESCRIPTION: &'static str = "Demonstrates three-stage workflow integration with hook system";

impl WorkflowIntegratedTool {
    /// The tool with its default name and description, without hooks.
    pub fn new() -> (r: Self)
        ensures
            r.name@ == WORKFLOW_TOOL_NAME@,
            r.description@ == WORKFLOW_TOOL_DESCRIPTION@,
            r.hook_manager is None,
    {
        WorkflowIntegratedTool {
            name: String::from_str(WORKFLOW_TOOL_NAME),
            description: String::from_str(WORKFLOW_TOOL_DESCRIPTION),
            hook_manager: None,
        }
    }

    /// The same tool reporting to a hook manager.
    pub fn with_hook_manager(self, hook_manager: HookManagerHandle) -> (r: Self)
        ensures
            r.name == self.name,
            r.description == self.description,
            r.hook_manager == Some(hook_manager),
    {
        WorkflowIntegratedTool { hook_manager: Some(hook_manager), ..self }
    }

    /// The JSON schema of the input: `action` and `description` (both
    /// required) and `simulate_error`.
    pub fn input_schema(&self) -> (r: JsonValue)
        ensures
            r matches JsonValue::Object(es) && {
                &&& es@.len() == 3
                &&& es@[1].0@ == "properties"@
                &&& (es@[1].1 matches JsonValue::Object(ps) && ps@.len() == 3 && ps@[0].0@ == "action"@
                    && ps@[1].0@ == "description"@ && ps@[2].0@ == "simulate_error"@)
                &&& es@[2].0@ == "required"@
                &&& (es@[2].1 matches JsonValue::Array(rs) && rs@.len() == 2
                    && (rs@[0] matches JsonValue::String(a) && a@ == "action"@)
                    && (rs@[1] matches JsonValue::String(d) && d@ == "description"@))
            },
    {
        JsonValue::Object(vec![
            (String::from_str("type"), json_str("object")),
            (String::from_str("properties"), JsonValue::Object(vec![
                (String::from_str("action"), typed_property("string", "Action to perform (e.g., 'analyze', 'process', 'generate')")),
                (String::from_str("description"), typed_property("string", "Detailed description of what to do")),
                (String::from_str("simulate_error"), typed_property("boolean", "Whether to simulate an error for testing (optional)")),
            ])),
            (String::from_str("required"), JsonValue::Array(vec![json_str("action"), json_str("description")])),
        ])
    }
}

/// Builds a workflow tool.
#[derive(Debug)]
pub struct WorkflowIntegratedToolBuilder {
    tool: WorkflowIntegratedTool,
}

impl WorkflowIntegratedToolBuilder {
    /// The tool being built.
    pub closed spec fn tool(&self) -> WorkflowIntegratedTool {
        self.tool
    }

    /// A builder starting from the default tool.
    pub fn new() -> (r: Self)
        ensures
            r.tool().name@ == WORKFLOW_TOOL_NAME@,
            r.tool().description@ == WORKFLOW_TOOL_DESCRIPTION@,
            r.tool().hook_manager is None,
    {
        WorkflowIntegratedToolBuilder { tool: WorkflowIntegratedTool::new() }
    }

    /// Sets the name.
    pub fn with_name(self, name: String) -> (r: Self)
        ensures
            r.tool().name == name,
            r.tool().description == self.tool().description,
            r.tool().hook_manager == self.tool().hook_manager,
    {
        WorkflowIntegratedToolBuilder { tool: WorkflowIntegratedTool { name, ..self.tool } }
    }

    /// Sets the description.
    pub fn with_description(self, description: String) -> (r: Self)
        ensures
            r.tool().description == description,
            r.tool().name == self.tool().name,
            r.tool().hook_manager == self.tool().hook_manager,
    {
        WorkflowIntegratedToolBuilder { tool: WorkflowIntegratedTool { description, ..self.tool } }
    }

    /// Sets the hook manager.
    pub fn with_hook_manager(self, hook_manager: HookManagerHandle) -> (r: Self)
        ensures
            r.tool().hook_manager == Some(hook_manager),
            r.tool().name == self.tool().name,
            r.tool().description == self.tool().description,
    {
        WorkflowIntegratedToolBuilder { tool: self.tool.with_hook_manager(hook_manager) }
    }

    /// The tool built.
    pub fn build(self) -> (r: WorkflowIntegratedTool)
        ensures
            r == self.tool(),
    {
        self.tool
    }
}

/// The input of the workflow tool.
#[derive(Debug, Clone)]
pub struct WorkflowParams {
    pub action: String,
    pub description: String,
    pub simulate_error: Option<bool>,
}

/// The input read from a call: `action` and `description` strings and an
/// optional `simulate_error` flag (`null` counts as absent); `None` when the
/// parameters have another shape.
pub open spec fn workflow_input(params: JsonValue) -> Option<(Seq<char>, Seq<char>, Option<bool>)> {
    match params {
        JsonValue::Object(_) => match (member(params, "action"@), member(params, "description"@), member(params, "simulate_error"@)) {
            (Some(JsonValue::String(a)), Some(JsonValue::String(d)), f) => match f {
                None => Some((a@, d@, None)),
                Some(JsonValue::Null) => Some((a@, d@, None)),
                Some(JsonValue::Bool(b)) => Some((a@, d@, Some(b))),
                _ => None,
            },
            _ => None,
        },
        _ => None,
    }
}

/// Reads a call's input; refused when the parameters have another shape.
pub fn parse_workflow_params(params: &JsonValue) -> (r: Result<WorkflowParams, ToolError>)
    ensures
        match workflow_input(*params) {
            Some((a, d, f)) => r matches Ok(p) && p.action@ == a && p.description@ == d && p.simulate_error == f,
            None => r matches Err(ToolError::InvalidParams(_)),
        },
{
    let refuse = ToolError::InvalidParams(String::from_str("invalid workflow parameters"));
    match params {
        JsonValue::Object(_) => {},
        _ => return Err(refuse),
    }
    let action = match params.get("action") {
        Some(JsonValue::String(a)) => a.clone(),
        _ => return Err(refuse),
    };
    let description = match params.get("description") {
        Some(JsonValue::String(d)) => d.clone(),
        _ => return Err(refuse),
    };
    let simulate_error = match params.get("simulate_error") {
        None => None,
        Some(JsonValue::Null) => None,
        Some(JsonValue::Bool(b)) => Some(*b),
        _ => return Err(refuse),
    };
    Ok(WorkflowParams { action, description, simulate_error })
}

/// How `{:?}` writes the path named by `s` (`Path`'s `Debug`: quoted, with
/// escapes).
pub uninterp spec fn debug_text(s: Seq<char>) -> Seq<char>;

/// `format!("{:?}", Path::new(s))`: the path quoted and escaped as `Path`'s
/// `Debug` writes it.
#[verifier::external_body]
fn debug_quoted(s: &str) -> (r: String)
    ensures
        r@ == debug_text(s@),
{
    format!("{:?}", std::path::Path::new(s))
}

/// The pre-action report: the working directory, the session and the user
/// (`未知` for an unknown one).
pub open spec fn pre_action_text(context: ToolContext) -> Seq<char> {
    "🔄 Pre-Action 上下文刷新:\n\n工作目录: "@ + debug_text(context.working_directory@) + "\n会话ID: "@ + (if context.session_id@.len()
        == 0 {
        "未知"@
    } else {
        context.session_id@
    }) + "\n用户: "@ + match context.user {
        Some(u) => u@,
        None => "未知"@,
    } + "\n\n⚠️ 准备执行工具操作，请确认目标明确"@
}

/// The pre-action report.
pub fn pre_action_info(context: &ToolContext) -> (r: String)
    ensures
        r@ == pre_action_text(*context),
{
    let mut m = String::from_str("🔄 Pre-Action 上下文刷新:\n\n工作目录: ");
    let d = debug_quoted(context.working_directory.as_str());
    m.append(d.as_str());
    m.append("\n会话ID: ");
    if context.session_id.as_str().is_empty() {
        m.append("未知");
    } else {
        m.append(context.session_id.as_str());
    }
    m.append("\n用户: ");
    match &context.user {
        Some(u) => m.append(u.as_str()),
        None => m.append("未知"),
    }
    m.append("\n\n⚠️ 准备执行工具操作，请确认目标明确");
    m
}

/// The post-action report, after an error (with its text) or a success.
pub open spec fn post_action_text(error: Option<Seq<char>>) -> Seq<char> {
    "📝 Post-Action 状态更新:\n\n"@ + match error {
        Some(e) => "🚨 错误处理: "@ + e + "\n- 错误已记录到错误跟踪系统\n- 建议检查输入参数和执行环境\n"@,
        None => "✅ 操作成功完成\n- 结果已记录到进度日志\n"@,
    } + "\n💡 下一步建议:\n- 如果完成了某个阶段，请更新任务计划\n- 有重要发现请记录到 findings.md\n- 继续下一个计划步骤\n"@
}

/// The post-action report.
pub fn post_action_info(error: Option<&str>) -> (r: String)
    ensures
        r@ == post_action_text(match error {
            Some(e) => Some(e@),
            None => None,
        }),
{
    let mut m = String::from_str("📝 Post-Action 状态更新:\n\n");
    match error {
        Some(e) => {
            m.append("🚨 错误处理: ");
            m.append(e);
            m.append("\n- 错误已记录到错误跟踪系统\n- 建议检查输入参数和执行环境\n");
        },
        None => m.append("✅ 操作成功完成\n- 结果已记录到进度日志\n"),
    }
    m.append("\n💡 下一步建议:\n- 如果完成了某个阶段，请更新任务计划\n- 有重要发现请记录到 findings.md\n- 继续下一个计划步骤\n");
    m
}

/// The text of the error a simulated failure raises.
pub const SIMULATED_ERROR: &'static str = "模拟错误：操作失败";

/// The post-action report for a call: the simulated failure's error when
/// the call asks for one, else success.
pub fn post_action_for(p: &WorkflowParams) -> (r: String)
    ensures
        r@ == post_action_text(if p.simulate_error == Some(true) {
            Some(SIMULATED_ERROR@)
        } else {
            None
        }),
{
    let failed = match p.simulate_error {
        Some(b) => b,
        None => false,
    };
    if failed {
        post_action_info(Some(SIMULATED_ERROR))
    } else {
        post_action_info(None)
    }
}

/// The report of the action stage: the action and its description, the
/// pre-action report, and for a success the time it ran (`now`).
pub open spec fn action_text(p: WorkflowParams, pre: Seq<char>, now: Seq<char>) -> Seq<char> {
    "🔄 执行操作: "@ + p.action@ + "\n\n"@ + "描述: "@ + p.description@ + "\n\n"@ + "Pre-Action 信息:\n"@ + pre + "\n\n"@
        + if p.simulate_error == Some(true) {
        Seq::empty()
    } else {
        "✅ 操作执行成功\n"@ + "时间: "@ + now + "\n"@
    }
}

/// The tool's result once both stages have run: on success the action report
/// followed by the post-action report, with the action and the stage as
/// metadata; on a simulated failure an error with both reports, and the
/// failure's text and the post-action report as metadata.
pub fn workflow_result(p: &WorkflowParams, pre: &str, now: &str, post: &str) -> (r: ToolResult)
    ensures
        p.simulate_error != Some(true) ==> r.success && (r.output matches Some(o) && o@ == action_text(*p, pre@, now@) + "\n\n"@
            + post@) && (metadata_value(r.metadata@, "action"@) matches Some(JsonValue::String(a)) && a@ == p.action@),
        p.simulate_error == Some(true) ==> !r.success && (r.error matches Some(e) && e@ == "❌ 操作失败: "@ + SIMULATED_ERROR@
            + "\n\n"@ + post@) && (metadata_value(r.metadata@, "post_action_info"@) matches Some(JsonValue::String(t)) && t@
            == post@) && (metadata_value(r.metadata@, "error"@) matches Some(JsonValue::String(m)) && m@ == SIMULATED_ERROR@),
{
    let mut content = String::from_str("🔄 执行操作: ");
    content.append(p.action.as_str());
    content.append("\n\n");
    content.append("描述: ");
    content.append(p.description.as_str());
    content.append("\n\n");
    content.append("Pre-Action 信息:\n");
    content.append(pre);
    content.append("\n\n");
    let failed = match p.simulate_error {
        Some(b) => b,
        None => false,
    };
    if failed {
        let mut e = String::from_str("❌ 操作失败: ");
        e.append(SIMULATED_ERROR);
        e.append("\n\n");
        e.append(post);
        proof {
            reveal_strlit("error");
            reveal_strlit("post_action_info");
            assert("error"@.len() != "post_action_info"@.len());
        }
        return ToolResult::error(e.as_str()).with_metadata("error", json_str(SIMULATED_ERROR)).with_metadata(
            "post_action_info",
            json_str(post),
        );
    }
    content.append("✅ 操作执行成功\n");
    content.append("时间: ");
    content.append(now);
    content.append("\n");
    proof {
        reveal_strlit("action");
        reveal_strlit("workflow_stage");
        assert("action"@.len() != "workflow_stage"@.len());
    }
    let r = ToolResult::success(content.as_str()).with_metadata("action", json_str(p.action.as_str())).with_metadata(
        "workflow_stage",
        json_str("action_completed"),
    );
    let mut full = content;
    full.append("\n\n");
    full.append(post);
    r.with_content(full)
}

} // verus!
