//! The tool registry and the background-task tools: which tools a registry
//! starts with, and how `KillShell` and `Task` read their input and report.
//! Running and killing tasks is the task manager's work, outside.

use vstd::prelude::*;
use crate::json::{JsonValue, member, json_str};
use crate::text::{chars_of, string_from, trim, trim_str, eq_chars, slice_range};
use crate::tool::{ToolError, ToolResult, ToolOptions, PermissionCheckResult, metadata_value};
use crate::read::FileReadHistory;
use crate::rewind::texts;

verus! {

/// The names of the registered tools, in the order they were registered.
#[derive(Debug)]
pub struct ToolRegistry {
    names: Vec<String>,
}

impl ToolRegistry {
    /// The names registered.
    pub closed spec fn names(&self) -> Seq<Seq<char>> {
        texts(self.names@)
    }

    /// An empty registry.
    pub fn new() -> (r: Self)
        ensures
            r.names().len() == 0,
    {
        let r = ToolRegistry { names: Vec::new() };
        proof {
            assert(r.names() =~= Seq::<Seq<char>>::empty());
        }
        r
    }

    /// Registers a tool by name; a name already registered stays once.
    pub fn register(&mut self, name: &str)
        ensures
            final(self).names() == if old(self).names().contains(name@) {
                old(self).names()
            } else {
                old(self).names().push(name@)
            },
    {
        if crate::rewind::contains_text(&self.names, name) {
            return;
        }
        let ghost before = self.names();
        self.names.push(String::from_str(name));
        proof {
            assert(self.names() =~= before.push(name@));
        }
    }

    /// Whether a tool of this name is registered.
    pub fn contains(&self, name: &str) -> (r: bool)
        ensures
            r == self.names().contains(name@),
    {
        crate::rewind::contains_text(&self.names, name)
    }
}

/// The tools every registry gets, in order.
pub open spec fn base_tools() -> Seq<Seq<char>> {
    seq!["bash"@, "read"@, "write"@, "edit"@, "glob"@, "grep"@]
}

/// Registers the file, shell and search tools, then `ask` and `lsp` when their
/// callbacks are given; returns the read history the file tools share.
pub fn register_all_tools(registry: &mut ToolRegistry, with_ask: bool, with_lsp: bool) -> (r: FileReadHistory)
    ensures
        r.records().len() == 0,
        forall|n: Seq<char>| #[trigger] final(registry).names().contains(n) <==> (old(registry).names().contains(n)
            || base_tools().contains(n) || (with_ask && n == "ask"@) || (with_lsp && n == "lsp"@)),
{
    let history = crate::read::create_shared_history();
    let list: [&str; 6] = ["bash", "read", "write", "edit", "glob", "grep"];
    let ghost start = registry.names();
    proof {
        assert(list@.map_values(|s: &str| s@) =~= base_tools());
    }
    let mut i: usize = 0;
    while i < 6
        invariant
            i <= 6,
            list@.map_values(|s: &str| s@) == base_tools(),
            forall|n: Seq<char>| #[trigger] registry.names().contains(n) <==> (start.contains(n)
                || base_tools().take(i as int).contains(n)),
        decreases 6 - i,
    {
        let ghost before = registry.names();
        registry.register(list[i]);
        proof {
            let b = base_tools();
            assert(b.take(i + 1) =~= b.take(i as int).push(b[i as int]));
            lemma_register_contains(before, registry.names(), b[i as int]);
            lemma_push_contains(b.take(i as int), b[i as int]);
        }
        i = i + 1;
    }
    proof {
        assert(base_tools().take(6) =~= base_tools());
    }
    if with_ask {
        let ghost before = registry.names();
        registry.register("ask");
        proof {
            lemma_register_contains(before, registry.names(), "ask"@);
        }
    }
    if with_lsp {
        let ghost before = registry.names();
        registry.register("lsp");
        proof {
            lemma_register_contains(before, registry.names(), "lsp"@);
        }
    }
    history
}

proof fn lemma_push_contains(s: Seq<Seq<char>>, x: Seq<char>)
    ensures
        forall|n: Seq<char>| #[trigger] s.push(x).contains(n) <==> (s.contains(n) || n == x),
{
    assert forall|n: Seq<char>| #[trigger] s.push(x).contains(n) <==> (s.contains(n) || n == x) by {
        if s.push(x).contains(n) {
            let k = choose|k: int| 0 <= k < s.push(x).len() && s.push(x)[k] == n;
            if k < s.len() {
                assert(s[k] == n);
            }
        }
        if n == x {
            assert(s.push(x)[s.len() as int] == n);
        }
        if s.contains(n) {
            let k = choose|k: int| 0 <= k < s.len() && s[k] == n;
            assert(s.push(x)[k] == n);
        }
    }
}

proof fn lemma_register_contains(before: Seq<Seq<char>>, after: Seq<Seq<char>>, name: Seq<char>)
    requires
        after == if before.contains(name) {
            before
        } else {
            before.push(name)
        },
    ensures
        forall|n: Seq<char>| #[trigger] after.contains(n) <==> (before.contains(n) || n == name),
{
    lemma_push_contains(before, name);
}

/// Registers the default tools: the file, shell and search tools, without
/// `ask` or `lsp`.
pub fn register_default_tools(registry: &mut ToolRegistry) -> (r: FileReadHistory)
    ensures
        r.records().len() == 0,
        forall|n: Seq<char>| #[trigger] final(registry).names().contains(n) <==> (old(registry).names().contains(n)
            || base_tools().contains(n)),
{
    register_all_tools(registry, false, false)
}

/// Which task manager a tool uses (the managers themselves live outside).
#[derive(Debug, Clone, Copy, PartialEq, Eq, Structural)]
pub struct TaskManagerHandle {
    pub id: u64,
}

/// The input of `KillShell`.
#[derive(Debug, Clone)]
pub struct KillShellInput {
    pub shell_id: String,
}

/// The tool that kills a background shell.
#[derive(Debug)]
pub struct KillShellTool {
    task_manager: TaskManagerHandle,
}

/// How killing a shell went.
pub enum KillOutcome {
    Killed,
    NotFound,
    /// Failed, with the error's text
    Failed(String),
}

/// The shell id a call names: `shell_id`, else `task_id`, when it is a string.
pub open spec fn shell_id_param(params: JsonValue) -> Option<Seq<char>> {
    match member(params, "shell_id"@) {
        Some(v) => crate::json::as_text(Some(v)),
        None => crate::json::as_text(member(params, "task_id"@)),
    }
}

fn shell_id_of(params: &JsonValue) -> (r: Option<String>)
    ensures
        crate::ask::opt_chars(r) == shell_id_param(*params),
{
    let v = match params.get("shell_id") {
        Some(v) => Some(v),
        None => params.get("task_id"),
    };
    match v {
        Some(JsonValue::String(s)) => Some(s.clone()),
        _ => None,
    }
}

pub const KILL_SHELL_DESCRIPTION: &'static str = "Kills a running background bash shell by its ID. \
     Takes a shell_id parameter identifying the shell to kill. \
     Returns a success or failure status. \
     Use this tool when you need to terminate a long-running shell. \
     Shell IDs can be found using the TaskOutput tool or from background task execution results.";

impl KillShellTool {
    /// The manager used.
    pub closed spec fn manager(&self) -> TaskManagerHandle {
        self.task_manager
    }

    /// A tool using the default task manager.
    pub fn new() -> (r: Self)
        ensures
            r.manager() == (TaskManagerHandle { id: 0 }),
    {
        KillShellTool { task_manager: TaskManagerHandle { id: 0 } }
    }

    /// The tool, bound to the given task manager.
    pub fn with_task_manager(task_manager: TaskManagerHandle) -> (r: Self)
        ensures
            r.manager() == task_manager,
    {
        KillShellTool { task_manager }
    }

    /// The task manager used.
    pub fn task_manager(&self) -> (r: &TaskManagerHandle)
        ensures
            *r == self.manager(),
    {
        &self.task_manager
    }

    /// The tool's name.
    pub fn name(&self) -> (r: &'static str)
        ensures
            r@ == "KillShell"@,
    {
        "KillShell"
    }

    /// The tool's description.
    pub fn description(&self) -> (r: &'static str)
        ensures
            r@ == KILL_SHELL_DESCRIPTION@,
    {
        KILL_SHELL_DESCRIPTION
    }

    /// Kills are not retried, time out after ten seconds, and the timeout does
    /// not grow.
    pub fn options(&self) -> (r: ToolOptions)
        ensures
            r.max_retries == 0,
            r.base_timeout_secs == 10,
            !r.enable_dynamic_timeout,
    {
        ToolOptions::new().with_max_retries(0).with_base_timeout_secs(10).with_dynamic_timeout(false)
    }

    /// The JSON schema of the input: a required `shell_id` string.
    pub fn input_schema(&self) -> (r: JsonValue)
        ensures
            r matches JsonValue::Object(es) && {
                &&& es@.len() == 3
                &&& es@[1].0@ == "properties"@
                &&& (es@[1].1 matches JsonValue::Object(ps) && ps@.len() == 1 && ps@[0].0@ == "shell_id"@)
                &&& es@[2].0@ == "required"@
                &&& (es@[2].1 matches JsonValue::Array(rs) && rs@.len() == 1 && (rs@[0] matches JsonValue::String(k) && k@ == "shell_id"@))
            },
    {
        let id = JsonValue::Object(vec![
            (String::from_str("type"), json_str("string")),
            (String::from_str("description"), json_str("The ID of the background shell/task to kill")),
        ]);
        JsonValue::Object(vec![
            (String::from_str("type"), json_str("object")),
            (String::from_str("properties"), JsonValue::Object(vec![(String::from_str("shell_id"), id)])),
            (String::from_str("required"), JsonValue::Array(vec![json_str("shell_id")])),
        ])
    }

    /// The shell a call asks to kill; refused when it names none.
    pub fn requested_shell(&self, params: &JsonValue) -> (r: Result<String, ToolError>)
        ensures
            match shell_id_param(*params) {
                Some(id) => r matches Ok(s) && s@ == id,
                None => r matches Err(ToolError::InvalidParams(m)) && m@ == "Missing required parameter: shell_id"@,
            },
    {
        match shell_id_of(params) {
            Some(id) => Ok(id),
            None => Err(ToolError::InvalidParams(String::from_str("Missing required parameter: shell_id"))),
        }
    }

    /// The result of a kill: success or an error message, with the shell's id
    /// and whether it was killed as metadata.
    pub fn kill_result(&self, shell_id: &str, outcome: KillOutcome) -> (r: ToolResult)
        ensures
            metadata_value(r.metadata@, "shell_id"@) matches Some(JsonValue::String(t)) && t@ == shell_id@,
            metadata_value(r.metadata@, "killed"@) == Some(JsonValue::Bool(outcome is Killed)),
            match outcome {
                KillOutcome::Killed => r.success && (r.output matches Some(o) && o@ == "Successfully killed shell: "@ + shell_id@),
                KillOutcome::NotFound => !r.success && (r.error matches Some(e) && e@ == "No shell found with ID: "@ + shell_id@),
                KillOutcome::Failed(msg) => !r.success && (r.error matches Some(e) && e@ == "Failed to kill shell "@ + shell_id@
                    + ": "@ + msg@),
            },
    {
        let killed = match &outcome {
            KillOutcome::Killed => true,
            _ => false,
        };
        let base = match outcome {
            KillOutcome::Killed => {
                let mut m = String::from_str("Successfully killed shell: ");
                m.append(shell_id);
                ToolResult::success(m.as_str())
            },
            KillOutcome::NotFound => {
                let mut m = String::from_str("No shell found with ID: ");
                m.append(shell_id);
                ToolResult::error(m.as_str())
            },
            KillOutcome::Failed(e) => {
                let mut m = String::from_str("Failed to kill shell ");
                m.append(shell_id);
                m.append(": ");
                m.append(e.as_str());
                ToolResult::error(m.as_str())
            },
        };
        proof {
            reveal_strlit("shell_id");
            reveal_strlit("killed");
            assert("shell_id"@.len() != "killed"@.len());
        }
        base.with_metadata("shell_id", json_str(shell_id)).with_metadata("killed", JsonValue::Bool(killed))
    }

    /// A kill needs a non-blank shell id.
    pub fn check_permissions(&self, params: &JsonValue) -> (r: PermissionCheckResult)
        ensures
            match shell_id_param(*params) {
                None => r.behavior == crate::tool::PermissionBehavior::Deny && (r.message matches Some(m) && m@
                    == "Missing shell_id parameter"@),
                Some(id) => if trim(id).len() == 0 {
                    r.behavior == crate::tool::PermissionBehavior::Deny && (r.message matches Some(m) && m@
                        == "shell_id cannot be empty"@)
                } else {
                    r.behavior == crate::tool::PermissionBehavior::Allow
                },
            },
    {
        let id = match shell_id_of(params) {
            None => return PermissionCheckResult::deny("Missing shell_id parameter"),
            Some(id) => id,
        };
        if trim_str(id.as_str()).as_str().is_empty() {
            return PermissionCheckResult::deny("shell_id cannot be empty");
        }
        PermissionCheckResult::allow()
    }
}

/// The input of `Task`.
#[derive(Debug, Clone)]
pub struct TaskInput {
    pub command: String,
    pub description: Option<String>,
    pub run_in_background: Option<bool>,
}

/// A schema property of the given type, with its description.
fn typed_property(t: &str, description: &str) -> (r: JsonValue)
    ensures
        r is Object,
{
    JsonValue::Object(vec![
        (String::from_str("type"), json_str(t)),
        (String::from_str("description"), json_str(description)),
    ])
}

/// The tool that starts background tasks.
#[derive(Debug)]
pub struct TaskTool {
    task_manager: TaskManagerHandle,
}

/// The input read from a call: a `command` string, an optional `description`
/// string and an optional `run_in_background` flag (`null` counts as absent);
/// `None` when the parameters have another shape.
pub open spec fn task_input(params: JsonValue) -> Option<(Seq<char>, Option<Seq<char>>, Option<bool>)> {
    match params {
        JsonValue::Object(_) => match (member(params, "command"@), crate::ask::text_field(params, "description"@), member(params, "run_in_background"@)) {
            (Some(JsonValue::String(c)), Some(d), b) => match b {
                None => Some((c@, d, None)),
                Some(JsonValue::Null) => Some((c@, d, None)),
                Some(JsonValue::Bool(x)) => Some((c@, d, Some(x))),
                _ => None,
            },
            _ => None,
        },
        _ => None,
    }
}

/// How a task is described when the call gives no description: its command,
/// cut to 47 characters and `...` when longer than 50.
pub open spec fn default_task_description(command: Seq<char>) -> Seq<char> {
    if command.len() > 50 {
        command.take(47) + "..."@
    } else {
        command
    }
}

pub const TASK_PARSE_PREFIX: &'static str = "参数解析失败: ";

pub const TASK_HINT: &'static str = "使用 TaskOutput 工具查询任务状态和输出。";

impl TaskTool {
    /// The manager used.
    pub closed spec fn manager(&self) -> TaskManagerHandle {
        self.task_manager
    }

    /// A tool using the default task manager.
    pub fn new() -> (r: Self)
        ensures
            r.manager() == (TaskManagerHandle { id: 0 }),
    {
        TaskTool { task_manager: TaskManagerHandle { id: 0 } }
    }

    /// The tool, bound to the given task manager.
    pub fn with_manager(task_manager: TaskManagerHandle) -> (r: Self)
        ensures
            r.manager() == task_manager,
    {
        TaskTool { task_manager }
    }

    /// The task manager used.
    pub fn task_manager(&self) -> (r: &TaskManagerHandle)
        ensures
            *r == self.manager(),
    {
        &self.task_manager
    }

    /// The tool's name.
    pub fn name(&self) -> (r: &'static str)
        ensures
            r@ == "Task"@,
    {
        "Task"
    }

    /// The JSON schema of the input: `command` (required), `description` and
    /// `run_in_background`.
    pub fn input_schema(&self) -> (r: JsonValue)
        ensures
            r matches JsonValue::Object(es) && {
                &&& es@.len() == 3
                &&& es@[1].0@ == "properties"@
                &&& (es@[1].1 matches JsonValue::Object(ps) && ps@.len() == 3 && ps@[0].0@ == "command"@
                    && ps@[1].0@ == "description"@ && ps@[2].0@ == "run_in_background"@)
                &&& es@[2].0@ == "required"@
                &&& (es@[2].1 matches JsonValue::Array(rs) && rs@.len() == 1 && (rs@[0] matches JsonValue::String(k) && k@ == "command"@))
            },
    {
        JsonValue::Object(vec![
            (String::from_str("type"), json_str("object")),
            (String::from_str("properties"), JsonValue::Object(vec![
                (String::from_str("command"), typed_property("string", "要执行的命令")),
                (String::from_str("description"), typed_property("string", "任务描述（可选）")),
                (String::from_str("run_in_background"), typed_property("boolean", "是否在后台运行（默认 true）")),
            ])),
            (String::from_str("required"), JsonValue::Array(vec![json_str("command")])),
        ])
    }

    /// Starting a task is left to the user.
    pub fn check_permissions(&self) -> (r: PermissionCheckResult)
        ensures
            r.behavior == crate::tool::PermissionBehavior::Ask,
            r.message matches Some(m) && m@ == "执行后台任务"@,
    {
        PermissionCheckResult::ask("执行后台任务")
    }

    /// Reads a call's input; refused when the parameters have another shape.
    pub fn parse_input(&self, params: &JsonValue) -> (r: Result<TaskInput, ToolError>)
        ensures
            match task_input(*params) {
                Some((c, d, b)) => r matches Ok(t) && t.command@ == c && crate::ask::opt_chars(t.description) == d
                    && t.run_in_background == b,
                None => r matches Err(ToolError::InvalidParams(m)) && m@.len() >= TASK_PARSE_PREFIX@.len()
                    && m@.take(TASK_PARSE_PREFIX@.len() as int) == TASK_PARSE_PREFIX@,
            },
    {
        let refuse = {
            let mut m = String::from_str(TASK_PARSE_PREFIX);
            let ghost head = m@;
            m.append("invalid task input");
            proof {
                assert(m@.take(TASK_PARSE_PREFIX@.len() as int) =~= head);
            }
            ToolError::InvalidParams(m)
        };
        match params {
            JsonValue::Object(_) => {},
            _ => return Err(refuse),
        }
        let command = match params.get("command") {
            Some(JsonValue::String(c)) => c.clone(),
            _ => return Err(refuse),
        };
        let description = match crate::ask::read_text_field_pub(params, "description") {
            Some(d) => d,
            None => return Err(refuse),
        };
        let run_in_background = match params.get("run_in_background") {
            None => None,
            Some(JsonValue::Null) => None,
            Some(JsonValue::Bool(b)) => Some(*b),
            _ => return Err(refuse),
        };
        Ok(TaskInput { command, description, run_in_background })
    }

    /// The description of a task: the one given, else one made from the command.
    pub fn task_description(&self, input: &TaskInput) -> (r: String)
        ensures
            r@ == match input.description {
                Some(d) => d@,
                None => default_task_description(input.command@),
            },
    {
        match &input.description {
            Some(d) => d.clone(),
            None => {
                let c = chars_of(input.command.as_str());
                if c.len() > 50 {
                    let t = slice_range(c.as_slice(), 0, 47);
                    let mut r = string_from(t.as_slice());
                    r.append("...");
                    proof {
                        assert(t@ =~= input.command@.take(47));
                    }
                    r
                } else {
                    input.command.clone()
                }
            },
        }
    }

    /// The result for a task started in the background.
    pub fn started_result(&self, task_id: &str, description: &str, command: &str) -> (r: ToolResult)
        ensures
            r.success,
            r.output matches Some(o) && o@ == "任务已启动（后台运行）\n任务 ID: "@ + task_id@ + "\n描述: "@ + description@ + "\n命令: "@
                + command@ + "\n\n"@ + TASK_HINT@,
            metadata_value(r.metadata@, "task_id"@) matches Some(JsonValue::String(t)) && t@ == task_id@,
    {
        let mut m = String::from_str("任务已启动（后台运行）\n任务 ID: ");
        m.append(task_id);
        m.append("\n描述: ");
        m.append(description);
        m.append("\n命令: ");
        m.append(command);
        m.append("\n\n");
        m.append(TASK_HINT);
        ToolResult::success(m.as_str()).with_metadata("task_id", json_str(task_id))
    }

    /// The result for a task still running when the wait of `waited_secs` ran out.
    pub fn moved_to_background_result(&self, waited_secs: u64, task_id: &str, description: &str) -> (r: ToolResult)
        ensures
            r.success,
            r.output matches Some(o) && o@ == "任务启动成功但执行时间超过 "@ + crate::text::decimal(waited_secs as nat)
                + "秒，已转为后台运行\n任务 ID: "@ + task_id@ + "\n描述: "@ + description@ + "\n\n"@ + TASK_HINT@,
            metadata_value(r.metadata@, "task_id"@) matches Some(JsonValue::String(t)) && t@ == task_id@,
    {
        let mut m = String::from_str("任务启动成功但执行时间超过 ");
        let n = crate::text::u64_to_string(waited_secs);
        m.append(n.as_str());
        m.append("秒，已转为后台运行\n任务 ID: ");
        m.append(task_id);
        m.append("\n描述: ");
        m.append(description);
        m.append("\n\n");
        m.append(TASK_HINT);
        ToolResult::success(m.as_str()).with_metadata("task_id", json_str(task_id))
    }
}

} // verus!
