//! The todo list tool: per-agent task lists with one task in progress at a time,
//! cleared automatically once every task is completed.

use vstd::prelude::*;
use crate::json::{as_text, JsonValue, json_str};
use crate::text::{chars_of, concat_str, eq_chars, trim, trim_chars};
use crate::tool::{env_value, metadata_value, PermissionBehavior, PermissionCheckResult, ToolContext, ToolOptions, ToolResult};

verus! {

/// State of a task.
#[derive(Debug, Clone, Copy, PartialEq, Eq, Structural)]
pub enum TodoStatus {
    Pending,
    InProgress,
    Completed,
}

impl Default for TodoStatus {
    fn default() -> (r: Self)
        ensures
            r == TodoStatus::Pending,
    {
        TodoStatus::Pending
    }
}

/// A task.
#[derive(Debug)]
pub struct TodoItem {
    /// Imperative form, e.g. "Run tests"
    pub content: String,
    pub status: TodoStatus,
    /// Present continuous form, e.g. "Running tests"
    pub active_form: String,
}

impl Clone for TodoItem {
    fn clone(&self) -> (r: Self)
        ensures
            r == *self,
    {
        TodoItem { content: self.content.clone(), status: self.status, active_form: self.active_form.clone() }
    }
}

impl TodoItem {
    /// A pending task.
    pub fn new(content: &str, active_form: &str) -> (r: Self)
        ensures
            r.content@ == content@,
            r.active_form@ == active_form@,
            r.status == TodoStatus::Pending,
    {
        TodoItem { content: String::from_str(content), status: TodoStatus::Pending, active_form: String::from_str(active_form) }
    }

    /// A task in the given state.
    pub fn with_status(content: &str, active_form: &str, status: TodoStatus) -> (r: Self)
        ensures
            r.content@ == content@,
            r.active_form@ == active_form@,
            r.status == status,
    {
        TodoItem { content: String::from_str(content), status, active_form: String::from_str(active_form) }
    }

    pub fn is_in_progress(&self) -> (r: bool)
        ensures
            r == (self.status == TodoStatus::InProgress),
    {
        self.status == TodoStatus::InProgress
    }

    pub fn is_completed(&self) -> (r: bool)
        ensures
            r == (self.status == TodoStatus::Completed),
    {
        self.status == TodoStatus::Completed
    }
}

/// Number of tasks in state `s`.
pub open spec fn count_status(t: Seq<TodoItem>, s: TodoStatus) -> nat
    decreases t.len(),
{
    if t.len() == 0 {
        0
    } else {
        count_status(t.drop_last(), s) + if t.last().status == s {
            1nat
        } else {
            0nat
        }
    }
}

/// Every task is completed (vacuously true of no tasks).
pub open spec fn all_completed(t: Seq<TodoItem>) -> bool {
    forall|i: int| 0 <= i < t.len() ==> (#[trigger] t[i]).status == TodoStatus::Completed
}

fn count_with_status(t: &[TodoItem], s: TodoStatus) -> (r: usize)
    ensures
        r as nat == count_status(t@, s),
{
    let mut n: usize = 0;
    let mut i: usize = 0;
    while i < t.len()
        invariant
            i <= t@.len(),
            n <= i,
            n as nat == count_status(t@.take(i as int), s),
        decreases t@.len() - i,
    {
        proof {
            assert(t@.take(i + 1).drop_last() =~= t@.take(i as int));
            assert(t@.take(i + 1).last() == t@[i as int]);
        }
        if t[i].status == s {
            n = n + 1;
        }
        i = i + 1;
    }
    proof {
        assert(t@.take(t@.len() as int) =~= t@);
    }
    n
}

/// The tasks stored for agent `k` (the last entry with that key).
pub open spec fn lookup_entries(e: Seq<(Seq<char>, Seq<TodoItem>)>, k: Seq<char>) -> Option<Seq<TodoItem>>
    decreases e.len(),
{
    if e.len() == 0 {
        None
    } else if e.last().0 == k {
        Some(e.last().1)
    } else {
        lookup_entries(e.drop_last(), k)
    }
}

/// The entries without those of agent `a`.
pub open spec fn without_key(e: Seq<(Seq<char>, Seq<TodoItem>)>, a: Seq<char>) -> Seq<(Seq<char>, Seq<TodoItem>)>
    decreases e.len(),
{
    if e.len() == 0 {
        seq![]
    } else {
        let f = without_key(e.drop_last(), a);
        if e.last().0 == a {
            f
        } else {
            f.push(e.last())
        }
    }
}

pub proof fn lemma_without_key(e: Seq<(Seq<char>, Seq<TodoItem>)>, a: Seq<char>, k: Seq<char>)
    ensures
        lookup_entries(without_key(e, a), k) == if k == a {
            None
        } else {
            lookup_entries(e, k)
        },
    decreases e.len(),
{
    if e.len() > 0 {
        lemma_without_key(e.drop_last(), a, k);
        let f = without_key(e.drop_last(), a);
        if e.last().0 != a {
            assert(f.push(e.last()).drop_last() =~= f);
        }
    }
}

/// Each agent appears once and has a non-empty list.
pub open spec fn entries_wf(e: Seq<(Seq<char>, Seq<TodoItem>)>) -> bool
    decreases e.len(),
{
    e.len() == 0 || (entries_wf(e.drop_last()) && lookup_entries(e.drop_last(), e.last().0) is None
        && e.last().1.len() > 0)
}

proof fn lemma_without_key_wf(e: Seq<(Seq<char>, Seq<TodoItem>)>, a: Seq<char>)
    requires
        entries_wf(e),
    ensures
        entries_wf(without_key(e, a)),
    decreases e.len(),
{
    if e.len() > 0 {
        lemma_without_key_wf(e.drop_last(), a);
        let f = without_key(e.drop_last(), a);
        if e.last().0 != a {
            lemma_without_key(e.drop_last(), a, e.last().0);
            assert(f.push(e.last()).drop_last() =~= f);
        }
    }
}

/// Task lists kept per agent.
#[derive(Debug)]
pub struct TodoStorage {
    entries: Vec<(String, Vec<TodoItem>)>,
}

impl TodoStorage {
    /// The stored (agent, tasks) pairs.
    pub closed spec fn view_entries(self) -> Seq<(Seq<char>, Seq<TodoItem>)> {
        self.entries@.map_values(|p: (String, Vec<TodoItem>)| (p.0@, p.1@))
    }

    /// The tasks stored for agent `k`, if any.
    pub open spec fn todos_for(self, k: Seq<char>) -> Option<Seq<TodoItem>> {
        lookup_entries(self.view_entries(), k)
    }

    /// Each agent appears once, and no agent has an empty list.
    pub open spec fn wf(self) -> bool {
        entries_wf(self.view_entries())
    }

    /// An empty storage.
    pub fn new() -> (r: Self)
        ensures
            r.wf(),
            r.view_entries().len() == 0,
            forall|k: Seq<char>| r.todos_for(k) is None,
    {
        let r = TodoStorage { entries: Vec::new() };
        proof {
            assert(r.view_entries() =~= Seq::<(Seq<char>, Seq<TodoItem>)>::empty());
        }
        r
    }

    /// The tasks of agent `agent_id` (none when it has no list).
    pub fn get_todos(&self, agent_id: &str) -> (r: Vec<TodoItem>)
        ensures
            r@ == match self.todos_for(agent_id@) {
                Some(t) => t,
                None => Seq::<TodoItem>::empty(),
            },
    {
        let k = chars_of(agent_id);
        let ghost ve = self.view_entries();
        let mut i = self.entries.len();
        proof {
            assert(ve.take(i as int) =~= ve);
        }
        while i > 0
            invariant
                i <= self.entries@.len(),
                ve == self.view_entries(),
                ve.len() == self.entries@.len(),
                k@ == agent_id@,
                lookup_entries(ve.take(i as int), agent_id@) == lookup_entries(ve, agent_id@),
            decreases i,
        {
            proof {
                assert(ve.take(i as int).drop_last() =~= ve.take(i - 1));
                assert(ve.take(i as int).last() == ve[i - 1]);
            }
            let kc = chars_of(self.entries[i - 1].0.as_str());
            if eq_chars(kc.as_slice(), k.as_slice()) {
                return self.entries[i - 1].1.clone();
            }
            i = i - 1;
        }
        Vec::new()
    }

    /// Replaces the tasks of agent `agent_id`; an empty list removes the agent.
    /// Other agents' lists are untouched.
    pub fn set_todos(&mut self, agent_id: &str, todos: Vec<TodoItem>)
        ensures
            old(self).wf() ==> final(self).wf(),
            final(self).todos_for(agent_id@) == if todos@.len() == 0 {
                None
            } else {
                Some(todos@)
            },
            forall|k: Seq<char>| k != agent_id@ ==> final(self).todos_for(k) == old(self).todos_for(k),
    {
        let k = chars_of(agent_id);
        let ghost ve = self.view_entries();
        let mut kept: Vec<(String, Vec<TodoItem>)> = Vec::new();
        let mut entries: Vec<(String, Vec<TodoItem>)> = Vec::new();
        std::mem::swap(&mut entries, &mut self.entries);
        let mut i: usize = 0;
        proof {
            assert(ve =~= entries@.map_values(|p: (String, Vec<TodoItem>)| (p.0@, p.1@)));
        }
        while i < entries.len()
            invariant
                i <= entries@.len(),
                ve == entries@.map_values(|p: (String, Vec<TodoItem>)| (p.0@, p.1@)),
                k@ == agent_id@,
                kept@.map_values(|p: (String, Vec<TodoItem>)| (p.0@, p.1@)) == without_key(ve.take(i as int), agent_id@),
            decreases entries@.len() - i,
        {
            proof {
                assert(ve.take(i + 1).drop_last() =~= ve.take(i as int));
                assert(ve.take(i + 1).last() == ve[i as int]);
            }
            let kc = chars_of(entries[i].0.as_str());
            if !eq_chars(kc.as_slice(), k.as_slice()) {
                let ghost before = kept@;
                kept.push((entries[i].0.clone(), entries[i].1.clone()));
                proof {
                    assert(kept@.map_values(|p: (String, Vec<TodoItem>)| (p.0@, p.1@)) =~= before.map_values(
                        |p: (String, Vec<TodoItem>)| (p.0@, p.1@),
                    ).push(ve[i as int]));
                }
            }
            i = i + 1;
        }
        proof {
            assert(ve.take(entries@.len() as int) =~= ve);
        }
        let ghost filtered = without_key(ve, agent_id@);
        let empty = todos.len() == 0;
        let ghost tv = todos@;
        if !empty {
            let ghost before = kept@;
            kept.push((String::from_str(agent_id), todos));
            proof {
                assert(kept@.map_values(|p: (String, Vec<TodoItem>)| (p.0@, p.1@)) =~= before.map_values(
                    |p: (String, Vec<TodoItem>)| (p.0@, p.1@),
                ).push((agent_id@, tv)));
            }
        }
        self.entries = kept;
        proof {
            if entries_wf(ve) {
                lemma_without_key_wf(ve, agent_id@);
            }
            lemma_without_key(ve, agent_id@, agent_id@);
            let ne = self.view_entries();
            if !empty {
                assert(ne.drop_last() =~= filtered);
            } else {
                assert(ne =~= filtered);
            }
            assert forall|kk: Seq<char>| kk != agent_id@ implies self.todos_for(kk) == lookup_entries(ve, kk) by {
                lemma_without_key(ve, agent_id@, kk);
            }
        }
    }
}


/// Counts of pending, in-progress and completed tasks.
pub open spec fn status_counts(t: Seq<TodoItem>) -> (nat, nat, nat) {
    (count_status(t, TodoStatus::Pending), count_status(t, TodoStatus::InProgress), count_status(t, TodoStatus::Completed))
}

impl TodoStorage {
    /// Per agent: (pending, in progress, completed) task counts.
    pub fn get_stats(&self) -> (r: Vec<(String, (usize, usize, usize))>)
        ensures
            r@.len() == self.view_entries().len(),
            forall|i: int|
                0 <= i < r@.len() ==> {
                    &&& (#[trigger] r@[i]).0@ == self.view_entries()[i].0
                    &&& (r@[i].1.0 as nat, r@[i].1.1 as nat, r@[i].1.2 as nat) == status_counts(self.view_entries()[i].1)
                },
    {
        let ghost ve = self.view_entries();
        let mut out: Vec<(String, (usize, usize, usize))> = Vec::new();
        let mut i: usize = 0;
        while i < self.entries.len()
            invariant
                i <= self.entries@.len(),
                ve == self.view_entries(),
                ve.len() == self.entries@.len(),
                out@.len() == i,
                forall|j: int|
                    0 <= j < i ==> {
                        &&& (#[trigger] out@[j]).0@ == ve[j].0
                        &&& (out@[j].1.0 as nat, out@[j].1.1 as nat, out@[j].1.2 as nat) == status_counts(ve[j].1)
                    },
            decreases self.entries@.len() - i,
        {
            let todos = self.entries[i].1.as_slice();
            let p = count_with_status(todos, TodoStatus::Pending);
            let q = count_with_status(todos, TodoStatus::InProgress);
            let c = count_with_status(todos, TodoStatus::Completed);
            out.push((self.entries[i].0.clone(), (p, q, c)));
            i = i + 1;
        }
        out
    }
}

/// The name a status is written with.
pub open spec fn status_name(s: TodoStatus) -> Seq<char> {
    match s {
        TodoStatus::Pending => "pending"@,
        TodoStatus::InProgress => "in_progress"@,
        TodoStatus::Completed => "completed"@,
    }
}

/// `v` is the JSON form of task `t`: `{"content", "status", "active_form"}`.
pub open spec fn is_todo_json(v: JsonValue, t: TodoItem) -> bool {
    &&& v matches JsonValue::Object(e)
    &&& e@.len() == 3
    &&& e@[0].0@ == "content"@
    &&& as_text(Some(e@[0].1)) == Some(t.content@)
    &&& e@[1].0@ == "status"@
    &&& as_text(Some(e@[1].1)) == Some(status_name(t.status))
    &&& e@[2].0@ == "active_form"@
    &&& as_text(Some(e@[2].1)) == Some(t.active_form@)
}

/// `v` is the JSON array of the tasks `ts`.
pub open spec fn is_todos_json(v: JsonValue, ts: Seq<TodoItem>) -> bool {
    &&& v matches JsonValue::Array(items)
    &&& items@.len() == ts.len()
    &&& forall|i: int| 0 <= i < ts.len() ==> is_todo_json(#[trigger] items@[i], ts[i])
}

fn status_text(s: TodoStatus) -> (r: String)
    ensures
        r@ == status_name(s),
{
    match s {
        TodoStatus::Pending => String::from_str("pending"),
        TodoStatus::InProgress => String::from_str("in_progress"),
        TodoStatus::Completed => String::from_str("completed"),
    }
}

/// The JSON form of a task.
pub fn todo_to_json(t: &TodoItem) -> (r: JsonValue)
    ensures
        is_todo_json(r, *t),
{
    let mut e: Vec<(String, JsonValue)> = Vec::new();
    e.push((String::from_str("content"), JsonValue::String(t.content.clone())));
    e.push((String::from_str("status"), JsonValue::String(status_text(t.status))));
    e.push((String::from_str("active_form"), JsonValue::String(t.active_form.clone())));
    JsonValue::Object(e)
}

/// The JSON array of the tasks.
pub fn todos_to_json(ts: &[TodoItem]) -> (r: JsonValue)
    ensures
        is_todos_json(r, ts@),
{
    let mut items: Vec<JsonValue> = Vec::new();
    let mut i: usize = 0;
    while i < ts.len()
        invariant
            i <= ts@.len(),
            items@.len() == i,
            forall|j: int| 0 <= j < i ==> is_todo_json(#[trigger] items@[j], ts@[j]),
        decreases ts@.len() - i,
    {
        items.push(todo_to_json(&ts[i]));
        i = i + 1;
    }
    JsonValue::Array(items)
}

/// The first problem with a task list: more than one task in progress, then, in
/// list order, a task whose content or active form is blank.
pub open spec fn todos_problem(t: Seq<TodoItem>) -> Option<Seq<char>> {
    if count_status(t, TodoStatus::InProgress) > 1 {
        Some("Only one task can be in_progress at a time"@)
    } else {
        first_blank_task(t, 0)
    }
}

/// The complaint about the first task from index `i` with blank text.
pub open spec fn first_blank_task(t: Seq<TodoItem>, i: int) -> Option<Seq<char>>
    decreases t.len() - i,
{
    if i < 0 || i >= t.len() {
        None
    } else if trim(t[i].content@).len() == 0 {
        Some("Task content cannot be empty"@)
    } else if trim(t[i].active_form@).len() == 0 {
        Some("Task active_form cannot be empty"@)
    } else {
        first_blank_task(t, i + 1)
    }
}

/// Every task from index `i` on has non-blank content and active form.
pub open spec fn tasks_filled_from(t: Seq<TodoItem>, i: int) -> bool {
    forall|j: int| i <= j < t.len() ==> trim((#[trigger] t[j]).content@).len() > 0 && trim(t[j].active_form@).len() > 0
}

/// No two distinct tasks are both in progress.
pub open spec fn at_most_one_in_progress(t: Seq<TodoItem>) -> bool {
    forall|i: int, j: int| 0 <= i < j < t.len() ==> !((#[trigger] t[i]).status == TodoStatus::InProgress
        && (#[trigger] t[j]).status == TodoStatus::InProgress)
}

proof fn lemma_scan_finds_nothing(t: Seq<TodoItem>, i: int)
    requires
        0 <= i <= t.len(),
    ensures
        first_blank_task(t, i) is None <==> tasks_filled_from(t, i),
    decreases t.len() - i,
{
    if i < t.len() {
        lemma_scan_finds_nothing(t, i + 1);
        if first_blank_task(t, i) is None {
            assert forall|j: int| i <= j < t.len() implies trim((#[trigger] t[j]).content@).len() > 0
                && trim(t[j].active_form@).len() > 0 by {
                if j > i {
                    assert(tasks_filled_from(t, i + 1));
                }
            }
        } else if tasks_filled_from(t, i) {
            assert(trim(t[i].content@).len() > 0);
            assert(tasks_filled_from(t, i + 1));
        }
    }
}

proof fn lemma_scan_stops_at(t: Seq<TodoItem>, i: int, k: int)
    requires
        0 <= i <= k < t.len(),
        forall|j: int| i <= j < k ==> trim((#[trigger] t[j]).content@).len() > 0 && trim(t[j].active_form@).len() > 0,
    ensures
        first_blank_task(t, i) == first_blank_task(t, k),
    decreases k - i,
{
    if i < k {
        assert(trim(t[i].content@).len() > 0);
        lemma_scan_stops_at(t, i + 1, k);
    }
}

proof fn lemma_no_status(t: Seq<TodoItem>, s: TodoStatus)
    ensures
        count_status(t, s) == 0 <==> forall|i: int| 0 <= i < t.len() ==> (#[trigger] t[i]).status != s,
    decreases t.len(),
{
    if t.len() > 0 {
        lemma_no_status(t.drop_last(), s);
        if count_status(t, s) == 0 {
            assert forall|i: int| 0 <= i < t.len() implies (#[trigger] t[i]).status != s by {
                if i < t.len() - 1 {
                    assert(t.drop_last()[i] == t[i]);
                }
            }
        } else {
            if forall|i: int| 0 <= i < t.len() ==> (#[trigger] t[i]).status != s {
                assert(t.last() == t[t.len() - 1]);
                assert forall|i: int| 0 <= i < t.drop_last().len() implies (#[trigger] t.drop_last()[i]).status != s by {
                    assert(t.drop_last()[i] == t[i]);
                }
            }
        }
    }
}

proof fn lemma_in_progress_count(t: Seq<TodoItem>)
    ensures
        count_status(t, TodoStatus::InProgress) <= 1 <==> at_most_one_in_progress(t),
    decreases t.len(),
{
    if t.len() > 0 {
        let p = t.drop_last();
        let n = t.len() - 1;
        lemma_in_progress_count(p);
        lemma_no_status(p, TodoStatus::InProgress);
        assert(t.last() == t[n]);
        assert forall|i: int| 0 <= i < n implies #[trigger] p[i] == t[i] by {}
        if count_status(t, TodoStatus::InProgress) <= 1 {
            assert forall|i: int, j: int| 0 <= i < j < t.len() implies !((#[trigger] t[i]).status == TodoStatus::InProgress
                && (#[trigger] t[j]).status == TodoStatus::InProgress) by {
                assert(p[i] == t[i]);
                if j < n {
                    assert(p[j] == t[j]);
                }
            }
        } else {
            if at_most_one_in_progress(t) {
                assert forall|i: int, j: int| 0 <= i < j < p.len() implies !((#[trigger] p[i]).status == TodoStatus::InProgress
                    && (#[trigger] p[j]).status == TodoStatus::InProgress) by {
                    assert(p[i] == t[i] && p[j] == t[j]);
                }
                if t[n].status == TodoStatus::InProgress {
                    assert forall|i: int| 0 <= i < p.len() implies (#[trigger] p[i]).status != TodoStatus::InProgress by {
                        assert(p[i] == t[i]);
                    }
                }
            }
        }
    }
}

/// A task list is accepted exactly when no two tasks are in progress and every
/// task, at every position, has non-blank content and a non-blank active form;
/// two tasks in progress are refused before any blank text is looked at.
pub proof fn lemma_accepted_lists(t: Seq<TodoItem>)
    ensures
        todos_problem(t) is None <==> (at_most_one_in_progress(t) && forall|i: int| 0 <= i < t.len()
            ==> trim((#[trigger] t[i]).content@).len() > 0 && trim(t[i].active_form@).len() > 0),
        !at_most_one_in_progress(t) ==> todos_problem(t) == Some("Only one task can be in_progress at a time"@),
{
    lemma_in_progress_count(t);
    lemma_scan_finds_nothing(t, 0);
}

/// With at most one task in progress, the complaint is about the first task with
/// blank text, wherever it stands: blank content is named before a blank active
/// form.
pub proof fn lemma_first_blank_task_reported(t: Seq<TodoItem>, k: int)
    requires
        at_most_one_in_progress(t),
        0 <= k < t.len(),
        forall|j: int| 0 <= j < k ==> trim((#[trigger] t[j]).content@).len() > 0 && trim(t[j].active_form@).len() > 0,
        trim(t[k].content@).len() == 0 || trim(t[k].active_form@).len() == 0,
    ensures
        todos_problem(t) == Some(if trim(t[k].content@).len() == 0 {
            "Task content cannot be empty"@
        } else {
            "Task active_form cannot be empty"@
        }),
{
    lemma_in_progress_count(t);
    lemma_scan_stops_at(t, 0, k);
}

/// The tool that keeps each agent's task list.
#[derive(Debug)]
pub struct TodoWriteTool {
    storage: TodoStorage,
    default_agent_id: String,
}

/// The agent a call is for: `AGENT_ID` from the context's environment, else its
/// session id, else the tool's default agent.
pub open spec fn agent_for(context: ToolContext, default_agent: Seq<char>) -> Seq<char> {
    match env_value(context.environment@, "AGENT_ID"@) {
        Some(a) => a,
        None => if context.session_id@.len() == 0 {
            default_agent
        } else {
            context.session_id@
        },
    }
}

/// The list stored after writing `todos`: nothing once every task is completed.
pub open spec fn stored_after_write(todos: Seq<TodoItem>) -> Seq<TodoItem> {
    if all_completed(todos) {
        Seq::empty()
    } else {
        todos
    }
}

/// What the todo tool says of itself.
pub const TODO_WRITE_DESCRIPTION: &'static str = "Use this tool to create and manage a structured task list for your current coding session. This helps you track progress, organize complex tasks, and demonstrate thoroughness to the user. It also helps the user understand the progress of the task and overall progress of their requests.\n\n## When to Use This Tool\nUse this tool proactively in these scenarios:\n1. Complex multi-step tasks - When a task requires 3 or more distinct steps or actions\n2. Non-trivial and complex tasks - Tasks that require careful planning or multiple operations\n3. User explicitly requests todo list - When the user directly asks you to use the todo list\n4. User provides multiple tasks - When users provide a list of things to be done\n5. After receiving new instructions - Immediately capture user requirements as todos\n6. When you start working on a task - Mark it as in_progress BEFORE beginning work\n7. After completing a task - Mark it as completed and add any new follow-up tasks\n\n## Task States and Management\n1. **Task States**: Use these states to track progress:\n- pending: Task not yet started\n- in_progress: Currently working on (limit to ONE task at a time)\n- completed: Task finished successfully\n2. **Task Management**:\n- Update task status in real-time as you work\n- Mark tasks complete IMMEDIATELY after finishing\n- Exactly ONE task must be in_progress at any time\n- Complete current tasks before starting new ones\n- Remove tasks that are no longer relevant from the list entirely";

impl TodoWriteTool {
    pub closed spec fn storage_view(self) -> TodoStorage {
        self.storage
    }

    pub closed spec fn default_agent(self) -> Seq<char> {
        self.default_agent_id@
    }

    /// A tool with empty storage and default agent `main`.
    pub fn new() -> (r: Self)
        ensures
            r.storage_view().wf(),
            forall|k: Seq<char>| r.storage_view().todos_for(k) is None,
            r.default_agent() == "main"@,
    {
        TodoWriteTool { storage: TodoStorage::new(), default_agent_id: String::from_str("main") }
    }

    /// A tool over the given storage, default agent `main`.
    pub fn with_storage(storage: TodoStorage) -> (r: Self)
        ensures
            r.storage_view() == storage,
            r.default_agent() == "main"@,
    {
        TodoWriteTool { storage, default_agent_id: String::from_str("main") }
    }

    /// The same tool with another default agent.
    pub fn with_default_agent_id(self, agent_id: &str) -> (r: Self)
        ensures
            r.storage_view() == self.storage_view(),
            r.default_agent() == agent_id@,
    {
        TodoWriteTool { storage: self.storage, default_agent_id: String::from_str(agent_id) }
    }

    /// The task storage.
    pub fn storage(&self) -> (r: &TodoStorage)
        ensures
            *r == self.storage_view(),
    {
        &self.storage
    }

    /// The default agent id.
    pub fn default_agent_id(&self) -> (r: &str)
        ensures
            r@ == self.default_agent(),
    {
        self.default_agent_id.as_str()
    }

    pub fn name(&self) -> (r: &'static str)
        ensures
            r@ == "TodoWrite"@,
    {
        "TodoWrite"
    }

    /// What the tool says of itself: when to keep a task list and how.
    pub fn description(&self) -> (r: &'static str)
        ensures
            r@ == TODO_WRITE_DESCRIPTION@,
    {
        TODO_WRITE_DESCRIPTION
    }

    /// The JSON schema of the input: a required `todos` array of items, each
    /// with a `content`, a `status` and an `active_form`.
    pub fn input_schema(&self) -> (r: JsonValue)
        ensures
            r matches JsonValue::Object(es) && {
                &&& es@.len() == 3
                &&& es@[1].0@ == "properties"@
                &&& (es@[1].1 matches JsonValue::Object(ps) && ps@.len() == 1 && ps@[0].0@ == "todos"@)
                &&& es@[2].0@ == "required"@
                &&& (es@[2].1 matches JsonValue::Array(rs) && rs@.len() == 1 && (rs@[0] matches JsonValue::String(k) && k@ == "todos"@))
            },
    {
        let one = JsonValue::Number(String::from_str("1"));
        let content = JsonValue::Object(vec![
            (String::from_str("type"), json_str("string")),
            (String::from_str("minLength"), one),
            (String::from_str("description"), json_str("Task description (imperative form, e.g., 'Run tests')")),
        ]);
        let status = JsonValue::Object(vec![
            (String::from_str("type"), json_str("string")),
            (String::from_str("enum"), JsonValue::Array(vec![json_str("pending"), json_str("in_progress"), json_str("completed")])),
            (String::from_str("description"), json_str("Task status")),
        ]);
        let active = JsonValue::Object(vec![
            (String::from_str("type"), json_str("string")),
            (String::from_str("minLength"), JsonValue::Number(String::from_str("1"))),
            (String::from_str("description"), json_str("Present continuous form (e.g., 'Running tests')")),
        ]);
        let item = JsonValue::Object(vec![
            (String::from_str("type"), json_str("object")),
            (String::from_str("properties"), JsonValue::Object(vec![
                (String::from_str("content"), content),
                (String::from_str("status"), status),
                (String::from_str("active_form"), active),
            ])),
            (String::from_str("required"), JsonValue::Array(vec![json_str("content"), json_str("status"), json_str("active_form")])),
        ]);
        let todos = JsonValue::Object(vec![
            (String::from_str("type"), json_str("array")),
            (String::from_str("description"), json_str("The updated todo list")),
            (String::from_str("items"), item),
        ]);
        JsonValue::Object(vec![
            (String::from_str("type"), json_str("object")),
            (String::from_str("properties"), JsonValue::Object(vec![(String::from_str("todos"), todos)])),
            (String::from_str("required"), JsonValue::Array(vec![json_str("todos")])),
        ])
    }

    /// No retries, a 5 second timeout, no dynamic timeout.
    pub fn options(&self) -> (r: ToolOptions)
        ensures
            r.max_retries == 0,
            r.base_timeout_secs == 5,
            !r.enable_dynamic_timeout,
    {
        ToolOptions::new().with_max_retries(0).with_base_timeout_secs(5).with_dynamic_timeout(false)
    }

    /// Checks a task list: at most one task in progress, no blank text.
    pub fn validate_todos(&self, todos: &[TodoItem]) -> (r: Result<(), String>)
        ensures
            match r {
                Ok(()) => todos_problem(todos@) is None,
                Err(m) => todos_problem(todos@) == Some(m@),
            },
    {
        if count_with_status(todos, TodoStatus::InProgress) > 1 {
            return Err(String::from_str("Only one task can be in_progress at a time"));
        }
        let mut i: usize = 0;
        while i < todos.len()
            invariant
                i <= todos@.len(),
                count_status(todos@, TodoStatus::InProgress) <= 1,
                first_blank_task(todos@, i as int) == first_blank_task(todos@, 0),
            decreases todos@.len() - i,
        {
            let c = trim_chars(chars_of(todos[i].content.as_str()).as_slice());
            if c.len() == 0 {
                return Err(String::from_str("Task content cannot be empty"));
            }
            let a = trim_chars(chars_of(todos[i].active_form.as_str()).as_slice());
            if a.len() == 0 {
                return Err(String::from_str("Task active_form cannot be empty"));
            }
            i = i + 1;
        }
        Ok(())
    }

    /// The agent id a call in `context` works for.
    pub fn get_agent_id(&self, context: &ToolContext) -> (r: String)
        ensures
            r@ == agent_for(*context, self.default_agent()),
    {
        match context.env("AGENT_ID") {
            Some(a) => a,
            None => if context.session_id.as_str().is_empty() {
                self.default_agent_id.clone()
            } else {
                context.session_id.clone()
            },
        }
    }

    /// Whether a call with this (already parsed) list may run.
    pub fn check_todos_permission(&self, todos: &[TodoItem]) -> (r: PermissionCheckResult)
        ensures
            match todos_problem(todos@) {
                None => r.behavior == PermissionBehavior::Allow,
                Some(m) => r.behavior == PermissionBehavior::Deny && r.message is Some
                    && r.message->0@ == "Invalid todos: "@ + m,
            },
    {
        match self.validate_todos(todos) {
            Ok(()) => PermissionCheckResult::allow(),
            Err(e) => {
                let m = concat_str("Invalid todos: ", e.as_str());
                PermissionCheckResult::deny(m.as_str())
            },
        }
    }

    /// Writes the (already parsed) list for the calling agent. An invalid list is
    /// reported as a failed result and changes nothing. Otherwise the agent's list
    /// becomes `todos`, or is cleared when every task is completed, and the
    /// result carries the agent id, the previous and the submitted lists and
    /// whether the list was cleared.
    pub fn write_todos(&mut self, todos: Vec<TodoItem>, context: &ToolContext) -> (r: ToolResult)
        ensures
            old(self).storage_view().wf() ==> final(self).storage_view().wf(),
            final(self).default_agent() == old(self).default_agent(),
            match todos_problem(todos@) {
                Some(m) => !r.success && r.error is Some && r.error->0@ == m
                    && final(self).storage_view() == old(self).storage_view(),
                None => {
                    let agent = agent_for(*context, old(self).default_agent());
                    let kept = stored_after_write(todos@);
                    let cleared = kept.len() == 0 && todos@.len() > 0;
                    &&& r.success
                    &&& final(self).storage_view().todos_for(agent) == if kept.len() == 0 {
                        None
                    } else {
                        Some(kept)
                    }
                    &&& forall|k: Seq<char>| k != agent ==> final(self).storage_view().todos_for(k)
                        == old(self).storage_view().todos_for(k)
                    &&& r.output is Some && r.output->0@ == if cleared {
                        todo_cleared_message()
                    } else {
                        todo_saved_message()
                    }
                    &&& as_text(metadata_value(r.metadata@, "agent_id"@)) == Some(agent)
                    &&& metadata_value(r.metadata@, "old_todos"@) is Some
                    &&& is_todos_json(metadata_value(r.metadata@, "old_todos"@)->0,
                        match old(self).storage_view().todos_for(agent) {
                            Some(t) => t,
                            None => Seq::empty(),
                        })
                    &&& metadata_value(r.metadata@, "new_todos"@) is Some
                    &&& is_todos_json(metadata_value(r.metadata@, "new_todos"@)->0, todos@)
                    &&& metadata_value(r.metadata@, "auto_cleared"@) == Some(JsonValue::Bool(cleared))
                },
            },
    {
        match self.validate_todos(todos.as_slice()) {
            Err(e) => return ToolResult::error(e.as_str()),
            Ok(()) => {},
        }
        let agent_id = self.get_agent_id(context);
        let old_todos = self.storage.get_todos(agent_id.as_str());
        let mut all_done = true;
        let mut i: usize = 0;
        while i < todos.len()
            invariant
                i <= todos@.len(),
                all_done == (forall|j: int| 0 <= j < i ==> (#[trigger] todos@[j]).status == TodoStatus::Completed),
            decreases todos@.len() - i,
        {
            if !todos[i].is_completed() {
                all_done = false;
            }
            i = i + 1;
        }
        let new_json = todos_to_json(todos.as_slice());
        let submitted = todos.len();
        let new_todos = if all_done {
            Vec::new()
        } else {
            todos
        };
        let cleared = new_todos.len() == 0 && submitted > 0;
        self.storage.set_todos(agent_id.as_str(), new_todos);
        let message = if cleared {
            "All tasks completed! Todo list has been automatically cleared. Ensure that you continue to use the todo list to track your progress for future tasks."
        } else {
            "Todos have been modified successfully. Ensure that you continue to use the todo list to track your progress. Please proceed with the current tasks if applicable."
        };
        let old_json = todos_to_json(old_todos.as_slice());
        proof {
            reveal_strlit("agent_id");
            reveal_strlit("old_todos");
            reveal_strlit("new_todos");
            reveal_strlit("auto_cleared");
            assert("old_todos"@[0] != "new_todos"@[0]);
        }
        let ghost agent = agent_id@;
        let r0 = ToolResult::success(message);
        let r1 = r0.with_metadata("agent_id", JsonValue::String(agent_id));
        assert(as_text(metadata_value(r1.metadata@, "agent_id"@)) == Some(agent));
        let r2 = r1.with_metadata("old_todos", old_json);
        assert(as_text(metadata_value(r2.metadata@, "agent_id"@)) == Some(agent));
        let r3 = r2.with_metadata("new_todos", new_json);
        assert("agent_id"@ != "new_todos"@ && "old_todos"@ != "new_todos"@);
        assert(as_text(metadata_value(r3.metadata@, "agent_id"@)) == Some(agent));
        let r = r3.with_metadata("auto_cleared", JsonValue::Bool(cleared));
        assert("auto_cleared"@.len() == 12 && "agent_id"@.len() == 8 && "old_todos"@.len() == 9 && "new_todos"@.len() == 9);
        proof {
            let kept = stored_after_write(todos@);
            assert(all_done == all_completed(todos@));
            assert(cleared == (kept.len() == 0 && todos@.len() > 0));
            assert(as_text(metadata_value(r.metadata@, "agent_id"@)) == Some(agent));
            assert(metadata_value(r.metadata@, "auto_cleared"@) == Some(JsonValue::Bool(cleared)));
            assert(self.storage_view().todos_for(agent) == if kept.len() == 0 { None } else { Some(kept) });
        }
        r
    }
}

/// The message sent when a write cleared a finished list.
pub open spec fn todo_cleared_message() -> Seq<char> {
    "All tasks completed! Todo list has been automatically cleared. Ensure that you continue to use the todo list to track your progress for future tasks."@
}

/// The message sent when a list was stored.
pub open spec fn todo_saved_message() -> Seq<char> {
    "Todos have been modified successfully. Ensure that you continue to use the todo list to track your progress. Please proceed with the current tasks if applicable."@
}

/// Reading an agent's list after writing it gives back what was written, or
/// nothing when the written list was empty; other agents' lists are untouched.
pub proof fn lemma_write_then_read(before: TodoStorage, after: TodoStorage, agent: Seq<char>, todos: Seq<TodoItem>, other: Seq<char>)
    requires
        after.todos_for(agent) == if todos.len() == 0 {
            None
        } else {
            Some(todos)
        },
        forall|k: Seq<char>| k != agent ==> after.todos_for(k) == before.todos_for(k),
    ensures
        match after.todos_for(agent) {
            Some(t) => t,
            None => Seq::<TodoItem>::empty(),
        } == todos,
        other != agent ==> after.todos_for(other) == before.todos_for(other),
{
}

/// A submitted list whose tasks are all completed leaves the agent with no list;
/// any other list is stored as submitted.
pub proof fn lemma_completed_lists_are_cleared(todos: Seq<TodoItem>)
    ensures
        all_completed(todos) ==> stored_after_write(todos).len() == 0,
        !all_completed(todos) ==> stored_after_write(todos) == todos,
{
}

/// A stored list never holds more than one task in progress once it passed
/// validation.
pub proof fn lemma_valid_lists_have_one_task_in_progress(todos: Seq<TodoItem>)
    requires
        todos_problem(todos) is None,
    ensures
        count_status(stored_after_write(todos), TodoStatus::InProgress) <= 1,
{
    if all_completed(todos) {
        assert(stored_after_write(todos) =~= Seq::<TodoItem>::empty());
    }
}

/// The input of the todo tool: the whole updated list.
#[derive(Debug, Clone)]
pub struct TodoWriteInput {
    pub todos: Vec<TodoItem>,
}

} // verus!

