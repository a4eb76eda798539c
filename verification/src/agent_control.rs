//! Agent control: the requests a host receives to start an agent or to pass
//! one a message, and the `SendMessage` tool, which decides who a message
//! goes to and what it answers.  Looking up teams and child sessions and
//! delivering messages are the host's work, outside.

use vstd::prelude::*;
use crate::json::{JsonValue, JsonView, json_str, json_view};
use crate::text::{trim, trim_str, chars_of, str_eq, decimal, u64_to_string};
use crate::tool::{ToolError, ToolResult, metadata_value};

verus! {

/// A request to start an agent.
#[derive(Debug, Clone)]
pub struct SpawnAgentRequest {
    pub parent_session_id: String,
    pub message: String,
    pub name: Option<String>,
    pub team_name: Option<String>,
    pub agent_type: Option<String>,
    pub model: Option<String>,
    pub reasoning_effort: Option<String>,
    pub fork_context: bool,
    pub blueprint_role_id: Option<String>,
    pub blueprint_role_label: Option<String>,
    pub profile_id: Option<String>,
    pub profile_name: Option<String>,
    pub role_key: Option<String>,
    pub skill_ids: Vec<String>,
    pub skill_directories: Vec<String>,
    pub team_preset_id: Option<String>,
    pub theme: Option<String>,
    pub system_overlay: Option<String>,
    pub output_contract: Option<String>,
    pub cwd: Option<String>,
}

/// A request to pass a message to a running agent.
#[derive(Debug, Clone)]
pub struct SendInputRequest {
    /// The agent's id
    pub id: String,
    pub message: String,
    /// Whether to interrupt what the agent is doing
    pub interrupt: bool,
}

/// The host's answer to a `SendInputRequest`.
#[derive(Debug)]
pub struct SendInputResponse {
    pub submission_id: String,
    /// Any further fields of the answer
    pub extra: Vec<(String, JsonValue)>,
}

/// The name of the tool.
pub const SEND_MESSAGE_TOOL_NAME: &'static str = "SendMessage";

/// What the tool says of itself.
pub const SEND_MESSAGE_DESCRIPTION: &'static str = "Send a message to another agent. 优先复用已有 agent 的上下文继续推进任务，而不是重复创建新 agent；当前 runtime 支持直接发送给 agent id，也支持在活跃 team 内按名字或 `*` 广播路由，但不保留旧跨会话 peer surface。";

fn schema_field(key: &str, value: JsonValue) -> (r: (String, JsonValue))
    ensures
        r.0@ == key@,
        r.1 == value,
{
    (String::from_str(key), value)
}

/// The JSON schema of the send-message tool's input: `to`, `summary` and
/// `message` (any JSON value), of which `to` and `message` are required, and
/// no other property.
pub fn send_message_input_schema() -> (r: JsonValue)
    ensures
        r matches JsonValue::Object(es) && {
            &&& es@.len() == 4
            &&& es@[0].0@ == "type"@ && (es@[0].1 matches JsonValue::String(t) && t@ == "object"@)
            &&& es@[1].0@ == "properties"@
            &&& (es@[1].1 matches JsonValue::Object(ps) && {
                &&& ps@.len() == 3
                &&& ps@[0].0@ == "to"@
                &&& ps@[1].0@ == "summary"@
                &&& ps@[2].0@ == "message"@
            })
            &&& es@[2].0@ == "required"@
            &&& (es@[2].1 matches JsonValue::Array(rs) && rs@.len() == 2
                && (rs@[0] matches JsonValue::String(a) && a@ == "to"@)
                && (rs@[1] matches JsonValue::String(b) && b@ == "message"@))
            &&& es@[3].0@ == "additionalProperties"@ && es@[3].1 == JsonValue::Bool(false)
        },
{
    let to = JsonValue::Object(vec![
        schema_field("type", json_str("string")),
        schema_field("description", json_str("目标 agent 标识。可传 agent id；若当前 session 属于活跃 team，也可传 teammate 名称或 `*` 广播给所有其他 team 成员。")),
    ]);
    let summary = JsonValue::Object(vec![
        schema_field("type", json_str("string")),
        schema_field("description", json_str("可选的 5-10 词预览摘要；当前 runtime 仅保留到 metadata，不参与路由。")),
    ]);
    let kinds = JsonValue::Array(vec![
        JsonValue::Object(vec![schema_field("type", json_str("string"))]),
        JsonValue::Object(vec![schema_field("type", json_str("object"))]),
        JsonValue::Object(vec![schema_field("type", json_str("array"))]),
        JsonValue::Object(vec![schema_field("type", json_str("number"))]),
        JsonValue::Object(vec![schema_field("type", json_str("boolean"))]),
        JsonValue::Object(vec![schema_field("type", json_str("null"))]),
    ]);
    let message = JsonValue::Object(vec![
        schema_field("description", json_str("发送给目标 agent 的消息内容。字符串会直接发送；结构化 JSON 会被序列化为字符串后发送。")),
        schema_field("oneOf", kinds),
    ]);
    JsonValue::Object(vec![
        schema_field("type", json_str("object")),
        schema_field("properties", JsonValue::Object(vec![
            schema_field("to", to),
            schema_field("summary", summary),
            schema_field("message", message),
        ])),
        schema_field("required", JsonValue::Array(vec![json_str("to"), json_str("message")])),
        schema_field("additionalProperties", JsonValue::Bool(false)),
    ])
}

/// `value` trimmed, refused where nothing is left.
pub fn normalize_required_text(value: &str, field_name: &str) -> (r: Result<String, ToolError>)
    ensures
        match r {
            Ok(t) => trim(value@).len() > 0 && t@ == trim(value@),
            Err(e) => trim(value@).len() == 0 && (e matches ToolError::InvalidParams(m) && m@ == field_name@
                + " 不能为空"@),
        },
{
    let t = trim_str(value);
    let tc = chars_of(t.as_str());
    if tc.len() == 0 {
        let mut m = String::from_str(field_name);
        m.append(" 不能为空");
        return Err(ToolError::InvalidParams(m));
    }
    Ok(t)
}

/// `value` trimmed, or nothing where nothing is left.
pub fn normalize_optional_text(value: Option<String>) -> (r: Option<String>)
    ensures
        match value {
            Some(v) => if trim(v@).len() > 0 {
                r matches Some(t) && t@ == trim(v@)
            } else {
                r is None
            },
            None => r is None,
        },
{
    match value {
        Some(v) => {
            let t = trim_str(v.as_str());
            let tc = chars_of(t.as_str());
            if tc.len() == 0 {
                None
            } else {
                Some(t)
            }
        },
        None => None,
    }
}

/// The compact JSON text that `serde_json::to_string` writes for the
/// `serde_json::Value` standing for `v` (each number read back with
/// `serde_json::Number::from_str`); none where a number's text is not one
/// that `serde_json` reads.
pub uninterp spec fn json_compact(v: JsonView) -> Option<Seq<char>>;

/// The declaration of `serde_json::Value`, carried opaquely.
#[verifier::external_type_specification]
#[verifier::external_body]
pub struct ExSerdeValue(serde_json::Value);

/// `v` as a `serde_json::Value`, one variant for one (a number read with
/// `serde_json::Number::from_str`, its error kept as text); no contract: its
/// result only feeds `json_compact_text`.
#[verifier::external_body]
fn to_serde_value(v: &JsonValue) -> (r: Result<serde_json::Value, String>) {
    Ok(match v {
        JsonValue::Null => serde_json::Value::Null,
        JsonValue::Bool(b) => serde_json::Value::Bool(*b),
        JsonValue::Number(n) => serde_json::Value::Number(n.parse().map_err(|e: serde_json::Error| e.to_string())?),
        JsonValue::String(t) => serde_json::Value::String(t.clone()),
        JsonValue::Array(items) => serde_json::Value::Array(items.iter().map(to_serde_value).collect::<Result<_, _>>()?),
        JsonValue::Object(es) => serde_json::Value::Object(
            es.iter().map(|(k, x)| to_serde_value(x).map(|y| (k.clone(), y))).collect::<Result<_, String>>()?,
        ),
    })
}

/// `serde_json::to_string` of `v` taken as a `serde_json::Value`.  The
/// contract claims only that the text is the one `json_compact` names for
/// `v`'s plain form; serde_json's escaping and key order are not stated.
/// Where a number's text is not one serde_json reads, the error's text is
/// returned and not stated.
#[verifier::external_body]
fn json_compact_text(v: &JsonValue) -> (r: Result<String, String>)
    ensures
        match r {
            Ok(t) => json_compact(json_view(*v)) == Some(t@),
            Err(_) => json_compact(json_view(*v)) is None,
        },
{
    to_serde_value(v).map(|x| x.to_string())
}

/// The message of a `SendMessage` call: text as given, or a structured JSON
/// value, sent as its compact JSON text.
#[derive(Debug)]
pub enum MessageInput {
    Text(String),
    Structured(JsonValue),
}

/// The text to deliver for a message: trimmed text, or the trimmed compact
/// JSON of a structured value; refused where nothing is left.
pub open spec fn message_outcome(message: MessageInput) -> Result<Seq<char>, Option<Seq<char>>> {
    let raw = match message {
        MessageInput::Text(t) => Some(t@),
        MessageInput::Structured(v) => json_compact(json_view(v)),
    };
    match raw {
        None => Err(None),
        Some(t) => if trim(t).len() > 0 {
            Ok(trim(t))
        } else {
            Err(Some("message"@ + " 不能为空"@))
        },
    }
}

/// The prefix of the refusal of a structured message that cannot be written as JSON.
pub const SERIALIZE_FAILED_PREFIX: &'static str = "SendMessage 无法序列化结构化消息: ";

/// The message to deliver (see `message_outcome`): refused as empty where
/// nothing is left once trimmed, and with `SERIALIZE_FAILED_PREFIX` and the
/// serialiser's words where a structured value cannot be written.
pub fn normalize_message(message: &MessageInput) -> (r: Result<String, ToolError>)
    ensures
        match message_outcome(*message) {
            Ok(t) => r matches Ok(m) && m@ == t,
            Err(Some(t)) => r matches Err(ToolError::InvalidParams(m)) && m@ == t,
            Err(None) => r matches Err(ToolError::InvalidParams(m)) && m@.len() >= SERIALIZE_FAILED_PREFIX@.len()
                && m@.take(SERIALIZE_FAILED_PREFIX@.len() as int) == SERIALIZE_FAILED_PREFIX@,
        },
{
    match message {
        MessageInput::Text(t) => normalize_required_text(t.as_str(), "message"),
        MessageInput::Structured(v) => match json_compact_text(v) {
            Ok(t) => normalize_required_text(t.as_str(), "message"),
            Err(e) => {
                let mut m = String::from_str(SERIALIZE_FAILED_PREFIX);
                let ghost head = m@;
                m.append(e.as_str());
                proof {
                    assert(m@.take(SERIALIZE_FAILED_PREFIX@.len() as int) =~= head);
                }
                Err(ToolError::InvalidParams(m))
            },
        },
    }
}

/// A member of an agent team.
#[derive(Debug, Clone)]
pub struct TeamMember {
    pub name: String,
    pub agent_id: String,
}

/// The team that a session belongs to, and which member the session is.
#[derive(Debug)]
pub struct TeamContext {
    pub members: Vec<TeamMember>,
    pub current_agent_id: String,
}

/// Where a message goes: the name shown and the agent that receives it.
#[derive(Debug, Clone)]
pub struct ResolvedSendTarget {
    pub display_name: String,
    pub agent_id: String,
}

/// The targets as (shown name, agent id) pairs.
pub open spec fn target_views(ts: Seq<ResolvedSendTarget>) -> Seq<(Seq<char>, Seq<char>)> {
    ts.map_values(|t: ResolvedSendTarget| (t.display_name@, t.agent_id@))
}

/// The members other than the current agent, in order, as targets.
pub open spec fn other_members(ms: Seq<TeamMember>, current: Seq<char>) -> Seq<(Seq<char>, Seq<char>)>
    decreases ms.len(),
{
    if ms.len() == 0 {
        seq![]
    } else {
        let rest = other_members(ms.drop_last(), current);
        if ms.last().agent_id@ != current {
            rest.push((ms.last().name@, ms.last().agent_id@))
        } else {
            rest
        }
    }
}

/// The first member with exactly this name.
pub open spec fn member_named(ms: Seq<TeamMember>, name: Seq<char>) -> Option<TeamMember>
    decreases ms.len(),
{
    if ms.len() == 0 {
        None
    } else if ms[0].name@ == name {
        Some(ms[0])
    } else {
        member_named(ms.skip(1), name)
    }
}

/// Where a message goes as far as the team decides it: `*` goes to every
/// other member of the session's team; a teammate's name goes to that
/// teammate (never to the session itself); anything else is left to the
/// child-session lookup (`None`).
pub open spec fn team_route(target: Seq<char>, team: Result<Option<TeamContext>, String>) -> Result<
    Option<Seq<(Seq<char>, Seq<char>)>>,
    Seq<char>,
> {
    match team {
        Err(e) => Err("读取 team 状态失败: "@ + e@),
        Ok(None) => if target == "*"@ {
            Err("当前 session 不在活跃 team 中，无法使用 `*` 广播"@)
        } else {
            Ok(None)
        },
        Ok(Some(t)) => if target == "*"@ {
            let rs = other_members(t.members@, t.current_agent_id@);
            if rs.len() == 0 {
                Err("当前 team 没有其他成员可接收消息"@)
            } else {
                Ok(Some(rs))
            }
        } else {
            match member_named(t.members@, target) {
                Some(m) => if m.agent_id@ == t.current_agent_id@ {
                    Err("不能把消息发送给当前 session 自己"@)
                } else {
                    Ok(Some(seq![(m.name@, m.agent_id@)]))
                },
                None => Ok(None),
            }
        },
    }
}

/// Where a message goes that the team did not route: to the child session of
/// that name where there is one, else to the agent of that id.
pub open spec fn child_route(target: Seq<char>, child: Result<Option<String>, String>) -> Result<
    Seq<(Seq<char>, Seq<char>)>,
    Seq<char>,
> {
    match child {
        Err(e) => Err("读取命名子 agent 路由失败: "@ + e@),
        Ok(Some(id)) => Ok(seq![(target, id@)]),
        Ok(None) => Ok(seq![(target, target)]),
    }
}

fn failed(m: &str) -> (r: ToolError)
    ensures
        r matches ToolError::ExecutionFailed(t) && t@ == m@,
{
    ToolError::ExecutionFailed(String::from_str(m))
}

fn failed_with(prefix: &str, e: &String) -> (r: ToolError)
    ensures
        r matches ToolError::ExecutionFailed(t) && t@ == prefix@ + e@,
{
    let mut m = String::from_str(prefix);
    m.append(e.as_str());
    ToolError::ExecutionFailed(m)
}

fn other_member_targets(t: &TeamContext) -> (r: Vec<ResolvedSendTarget>)
    ensures
        target_views(r@) == other_members(t.members@, t.current_agent_id@),
{
    let mut out: Vec<ResolvedSendTarget> = Vec::new();
    let mut i: usize = 0;
    proof {
        assert(t.members@.take(0) =~= Seq::<TeamMember>::empty());
        assert(target_views(out@) =~= Seq::<(Seq<char>, Seq<char>)>::empty());
    }
    while i < t.members.len()
        invariant
            i <= t.members@.len(),
            target_views(out@) == other_members(t.members@.take(i as int), t.current_agent_id@),
        decreases t.members@.len() - i,
    {
        proof {
            assert(t.members@.take(i + 1).drop_last() =~= t.members@.take(i as int));
            assert(t.members@.take(i + 1).last() == t.members@[i as int]);
        }
        let m = &t.members[i];
        if !str_eq(m.agent_id.as_str(), t.current_agent_id.as_str()) {
            let ghost before = out@;
            let target = ResolvedSendTarget { display_name: m.name.clone(), agent_id: m.agent_id.clone() };
            out.push(target);
            proof {
                assert(target_views(out@) =~= target_views(before).push((m.name@, m.agent_id@)));
            }
        }
        i = i + 1;
    }
    proof {
        assert(t.members@.take(t.members@.len() as int) =~= t.members@);
    }
    out
}

fn find_member(ms: &Vec<TeamMember>, name: &str) -> (r: Option<usize>)
    ensures
        match r {
            Some(i) => i < ms@.len() && member_named(ms@, name@) == Some(ms@[i as int]),
            None => member_named(ms@, name@) is None,
        },
{
    let mut i: usize = 0;
    proof {
        assert(ms@.skip(0) =~= ms@);
    }
    while i < ms.len()
        invariant
            i <= ms@.len(),
            member_named(ms@.skip(i as int), name@) == member_named(ms@, name@),
        decreases ms@.len() - i,
    {
        proof {
            assert(ms@.skip(i as int)[0] == ms@[i as int]);
            assert(ms@.skip(i as int).skip(1) =~= ms@.skip(i + 1));
        }
        if str_eq(ms[i].name.as_str(), name) {
            return Some(i);
        }
        i = i + 1;
    }
    None
}

/// The targets the team gives a message (see `team_route`).
pub fn route_in_team(target: &str, team: &Result<Option<TeamContext>, String>) -> (r: Result<
    Option<Vec<ResolvedSendTarget>>,
    ToolError,
>)
    ensures
        match r {
            Ok(Some(ts)) => team_route(target@, *team) == Ok::<_, Seq<char>>(Some(target_views(ts@))),
            Ok(None) => team_route(target@, *team) == Ok::<Option<Seq<(Seq<char>, Seq<char>)>>, Seq<char>>(None),
            Err(e) => team_route(target@, *team) matches Err(m) && (e matches ToolError::ExecutionFailed(t) && t@
                == m),
        },
{
    let broadcast = str_eq(target, "*");
    match team {
        Err(e) => Err(failed_with("读取 team 状态失败: ", e)),
        Ok(None) => if broadcast {
            Err(failed("当前 session 不在活跃 team 中，无法使用 `*` 广播"))
        } else {
            Ok(None)
        },
        Ok(Some(t)) => if broadcast {
            let rs = other_member_targets(t);
            if rs.len() == 0 {
                Err(failed("当前 team 没有其他成员可接收消息"))
            } else {
                Ok(Some(rs))
            }
        } else {
            match find_member(&t.members, target) {
                Some(i) => {
                    let m = &t.members[i];
                    if str_eq(m.agent_id.as_str(), t.current_agent_id.as_str()) {
                        Err(failed("不能把消息发送给当前 session 自己"))
                    } else {
                        let mut v: Vec<ResolvedSendTarget> = Vec::new();
                        v.push(ResolvedSendTarget { display_name: m.name.clone(), agent_id: m.agent_id.clone() });
                        proof {
                            assert(target_views(v@) =~= seq![(m.name@, m.agent_id@)]);
                        }
                        Ok(Some(v))
                    }
                },
                None => Ok(None),
            }
        },
    }
}

/// The target a child-session lookup gives a message (see `child_route`).
pub fn route_to_child(target: &str, child: &Result<Option<String>, String>) -> (r: Result<
    Vec<ResolvedSendTarget>,
    ToolError,
>)
    ensures
        match r {
            Ok(ts) => child_route(target@, *child) == Ok::<_, Seq<char>>(target_views(ts@)),
            Err(e) => child_route(target@, *child) matches Err(m) && (e matches ToolError::ExecutionFailed(t) && t@
                == m),
        },
{
    let agent_id = match child {
        Err(e) => {
            return Err(failed_with("读取命名子 agent 路由失败: ", e));
        },
        Ok(Some(id)) => id.clone(),
        Ok(None) => String::from_str(target),
    };
    let mut v: Vec<ResolvedSendTarget> = Vec::new();
    let ghost aid = agent_id@;
    v.push(ResolvedSendTarget { display_name: String::from_str(target), agent_id });
    proof {
        assert(target_views(v@) =~= seq![(target@, aid)]);
    }
    Ok(v)
}

/// The request that passes `message` to a target, without interrupting it.
pub fn send_request(target: &ResolvedSendTarget, message: &str) -> (r: SendInputRequest)
    ensures
        r.id@ == target.agent_id@,
        r.message@ == message@,
        !r.interrupt,
{
    SendInputRequest { id: target.agent_id.clone(), message: String::from_str(message), interrupt: false }
}

/// One message delivered: where it went and what the host answered.
#[derive(Debug)]
pub struct Delivery {
    pub target: ResolvedSendTarget,
    pub response: SendInputResponse,
}

/// How the tool's metadata records one delivery.
pub open spec fn delivery_record(j: JsonValue, d: Delivery) -> bool {
    j matches JsonValue::Object(f) && {
        &&& f@.len() == 4
        &&& f@[0].0@ == "target"@ && (f@[0].1 matches JsonValue::String(x) && x@ == d.target.display_name@)
        &&& f@[1].0@ == "agentId"@ && (f@[1].1 matches JsonValue::String(x) && x@ == d.target.agent_id@)
        &&& f@[2].0@ == "submissionId"@ && (f@[2].1 matches JsonValue::String(x) && x@ == d.response.submission_id@)
        &&& f@[3].0@ == "extra"@ && f@[3].1 == JsonValue::Object(d.response.extra)
    }
}

/// The line the tool answers with: the one target's name, or how many
/// teammates were reached.
pub open spec fn sent_text(deliveries: Seq<Delivery>) -> Seq<char> {
    if deliveries.len() == 1 {
        "Message sent to "@ + deliveries[0].target.display_name@
    } else {
        "Message sent to "@ + decimal(deliveries.len()) + " teammates"@
    }
}

fn record(d: Delivery) -> (r: JsonValue)
    ensures
        delivery_record(r, d),
{
    let Delivery { target, response } = d;
    JsonValue::Object(vec![
        (String::from_str("target"), JsonValue::String(target.display_name)),
        (String::from_str("agentId"), JsonValue::String(target.agent_id)),
        (String::from_str("submissionId"), JsonValue::String(response.submission_id)),
        (String::from_str("extra"), JsonValue::Object(response.extra)),
    ])
}

/// What the tool answers once the message was delivered: the line saying to
/// whom, and under `send_message` a record of the call: `success`, each
/// delivery, the `target` as given and the `summary` where there is one.
pub fn send_message_result(target: &str, summary: Option<String>, deliveries: Vec<Delivery>) -> (r: ToolResult)
    ensures
        r.success,
        r.output matches Some(o) && o@ == sent_text(deliveries@),
        r.error is None,
        metadata_value(r.metadata@, "send_message"@) matches Some(JsonValue::Object(es)) && {
            &&& es@.len() == if summary is Some {
                4int
            } else {
                3int
            }
            &&& es@[0].0@ == "success"@ && es@[0].1 == JsonValue::Bool(true)
            &&& es@[1].0@ == "deliveries"@ && (es@[1].1 matches JsonValue::Array(ds) && ds@.len() == deliveries@.len()
                && forall|i: int| 0 <= i < ds@.len() ==> delivery_record(#[trigger] ds@[i], deliveries@[i]))
            &&& es@[2].0@ == "target"@ && (es@[2].1 matches JsonValue::String(t) && t@ == target@)
            &&& (summary matches Some(s) ==> es@[3].0@ == "summary"@ && (es@[3].1 matches JsonValue::String(t) && t@
                == s@))
        },
{
    let ghost all = deliveries@;
    let n = deliveries.len();
    let text = if n == 1 {
        let mut m = String::from_str("Message sent to ");
        m.append(deliveries[0].target.display_name.as_str());
        m
    } else {
        let mut m = String::from_str("Message sent to ");
        let ns = u64_to_string(n as u64);
        m.append(ns.as_str());
        m.append(" teammates");
        m
    };
    let mut rest = deliveries;
    let mut records: Vec<JsonValue> = Vec::new();
    while rest.len() > 0
        invariant
            records@.len() + rest@.len() == all.len(),
            rest@ == all.skip(records@.len() as int),
            forall|i: int| 0 <= i < records@.len() ==> delivery_record(#[trigger] records@[i], all[i]),
        decreases rest@.len(),
    {
        let d = rest.remove(0);
        proof {
            assert(d == all[records@.len() as int]);
            assert(all.skip(records@.len() + 1 as int) =~= all.skip(records@.len() as int).skip(1));
        }
        let j = record(d);
        records.push(j);
    }
    let mut entries: Vec<(String, JsonValue)> = vec![
        (String::from_str("success"), JsonValue::Bool(true)),
        (String::from_str("deliveries"), JsonValue::Array(records)),
        (String::from_str("target"), json_str(target)),
    ];
    match summary {
        Some(s) => {
            entries.push((String::from_str("summary"), JsonValue::String(s)));
        },
        None => {},
    }
    proof {
        reveal_strlit("send_message");
    }
    ToolResult::success(text.as_str()).with_metadata("send_message", JsonValue::Object(entries))
}

proof fn lemma_other_members_exclude(ms: Seq<TeamMember>, current: Seq<char>)
    ensures
        forall|i: int| 0 <= i < other_members(ms, current).len() ==> (#[trigger] other_members(ms, current)[i]).1 != current,
    decreases ms.len(),
{
    if ms.len() > 0 {
        let rest = other_members(ms.drop_last(), current);
        lemma_other_members_exclude(ms.drop_last(), current);
        assert forall|i: int| 0 <= i < other_members(ms, current).len() implies (#[trigger] other_members(ms, current)[i]).1
            != current by {
            if i < rest.len() {
                assert(other_members(ms, current)[i] == rest[i]);
            }
        }
    }
}

/// A message is never routed back to the session's own agent: every target
/// the team gives (a broadcast or a teammate by name) is another member's
/// agent.
pub proof fn lemma_team_never_routes_to_self(target: Seq<char>, team: Result<Option<TeamContext>, String>)
    ensures
        team_route(target, team) matches Ok(Some(ts)) ==> (team matches Ok(Some(t)) && forall|i: int|
            0 <= i < ts.len() ==> (#[trigger] ts[i]).1 != t.current_agent_id@),
{
    match team {
        Ok(Some(t)) => {
            lemma_other_members_exclude(t.members@, t.current_agent_id@);
        },
        _ => {},
    }
}

} // verus!

