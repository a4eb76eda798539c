//! The server's request and response shapes for context, memory and reply
//! routes, and the decisions behind them: which status an error gets, what a
//! context read returns, and what the reply stream sends for each agent event.

use vstd::prelude::*;
use crate::json::JsonValue;
use crate::text::{contains, contains_chars, chars_of, str_eq};
use crate::trace::{ContextTraceStep, ContextTraceStepResponse, ContextTraceLevel, transform_context_trace_steps};

verus! {

/// An HTTP error answer: a message and a status code.
#[derive(Debug, Clone, PartialEq, Eq)]
pub struct ErrorResponse {
    pub message: String,
    pub status: u16,
}

pub const STATUS_BAD_REQUEST: u16 = 400;
pub const STATUS_NOT_FOUND: u16 = 404;
pub const STATUS_INTERNAL_ERROR: u16 = 500;

/// A context read request: the URI, and whether to return the resolution trace.
#[derive(Debug, Clone)]
pub struct ContextQuery {
    pub uri: String,
    pub include_trace: Option<bool>,
}

/// A context read answer.
#[derive(Debug)]
pub struct ContextReadResponse {
    pub uri: String,
    pub layer: String,
    pub content: String,
    pub source_path: String,
    pub trace: Option<Vec<ContextTraceStepResponse>>,
}

/// The state of one namespace of the context store.
#[derive(Debug, Clone)]
pub struct ContextNamespaceStatusResponse {
    pub namespace: String,
    pub path: String,
    pub exists: bool,
    pub file_count: usize,
    pub dir_count: usize,
}

/// The state of the context store.
#[derive(Debug)]
pub struct ContextStatusResponse {
    pub root_dir: String,
    pub root_exists: bool,
    pub namespaces: Vec<ContextNamespaceStatusResponse>,
}

/// A document read from the context store, with the steps that resolved it.
#[derive(Debug)]
pub struct ContextReadResult {
    pub uri: String,
    /// The layer's name
    pub layer: String,
    pub content: String,
    pub source_path: String,
    pub trace: Vec<ContextTraceStep>,
}

/// The answer to a context read: the document, and its trace when asked for.
pub fn to_read_response(result: ContextReadResult, include_trace: bool) -> (r: ContextReadResponse)
    ensures
        r.uri == result.uri,
        r.layer == result.layer,
        r.content == result.content,
        r.source_path == result.source_path,
        !include_trace ==> r.trace is None,
        include_trace ==> (r.trace matches Some(t) && t@.len() == result.trace@.len() && forall|i: int|
            0 <= i < t@.len() ==> (#[trigger] t@[i]).stage@ == result.trace@[i].stage@ && t@[i].detail@ == result.trace@[i].detail@),
{
    let trace = if include_trace {
        let mut out: Vec<ContextTraceStepResponse> = Vec::new();
        let steps = result.trace;
        let mut i: usize = 0;
        while i < steps.len()
            invariant
                i <= steps@.len(),
                steps@ == result.trace@,
                out@.len() == i,
                forall|j: int| 0 <= j < i ==> (#[trigger] out@[j]).stage@ == steps@[j].stage@ && out@[j].detail@ == steps@[j].detail@,
            decreases steps@.len() - i,
        {
            let s = &steps[i];
            out.push(ContextTraceStepResponse { stage: s.stage.clone(), detail: s.detail.clone() });
            i = i + 1;
        }
        Some(out)
    } else {
        None
    };
    ContextReadResponse {
        uri: result.uri,
        layer: result.layer,
        content: result.content,
        source_path: result.source_path,
        trace,
    }
}

/// A namespace of the context store as the service reports it.
#[derive(Debug, Clone)]
pub struct ContextNamespaceStatus {
    pub namespace: String,
    pub path: String,
    pub exists: bool,
    pub file_count: usize,
    pub dir_count: usize,
}

/// The context store as the service reports it.
#[derive(Debug)]
pub struct ContextServiceStatus {
    pub root_dir: String,
    pub root_exists: bool,
    pub namespaces: Vec<ContextNamespaceStatus>,
}

/// The status answer for the store's state, namespace by namespace.
pub fn context_status_response(status: ContextServiceStatus) -> (r: ContextStatusResponse)
    ensures
        r.root_dir == status.root_dir,
        r.root_exists == status.root_exists,
        r.namespaces@.len() == status.namespaces@.len(),
        forall|i: int| 0 <= i < r.namespaces@.len() ==> {
            let a = #[trigger] r.namespaces@[i];
            let b = status.namespaces@[i];
            a.namespace@ == b.namespace@ && a.path@ == b.path@ && a.exists == b.exists && a.file_count == b.file_count
                && a.dir_count == b.dir_count
        },
{
    let mut out: Vec<ContextNamespaceStatusResponse> = Vec::new();
    let ns = status.namespaces;
    let mut i: usize = 0;
    while i < ns.len()
        invariant
            i <= ns@.len(),
            ns@ == status.namespaces@,
            out@.len() == i,
            forall|j: int| 0 <= j < i ==> {
                let a = #[trigger] out@[j];
                let b = ns@[j];
                a.namespace@ == b.namespace@ && a.path@ == b.path@ && a.exists == b.exists && a.file_count == b.file_count
                    && a.dir_count == b.dir_count
            },
        decreases ns@.len() - i,
    {
        let n = &ns[i];
        out.push(ContextNamespaceStatusResponse {
            namespace: n.namespace.clone(),
            path: n.path.clone(),
            exists: n.exists,
            file_count: n.file_count,
            dir_count: n.dir_count,
        });
        i = i + 1;
    }
    ContextStatusResponse { root_dir: status.root_dir, root_exists: status.root_exists, namespaces: out }
}

/// Whether a failure message says the context was not found.
pub open spec fn says_not_found(message: Seq<char>) -> bool {
    contains(message, "未找到"@) || contains(message, "No such file or directory"@)
}

/// The error answer for a failed read of a layer: 404 when the context was
/// not found, else 400, with a message naming the layer.
pub fn map_context_error(layer: &str, message: &str) -> (r: ErrorResponse)
    ensures
        r.message@ == "读取 "@ + layer@ + " 层失败: "@ + message@,
        r.status == if says_not_found(message@) { STATUS_NOT_FOUND } else { STATUS_BAD_REQUEST },
{
    let m = chars_of(message);
    let not_found = contains_chars(m.as_slice(), chars_of("未找到").as_slice())
        || contains_chars(m.as_slice(), chars_of("No such file or directory").as_slice());
    let mut text = String::from_str("读取 ");
    text.append(layer);
    text.append(" 层失败: ");
    text.append(message);
    ErrorResponse { message: text, status: if not_found { STATUS_NOT_FOUND } else { STATUS_BAD_REQUEST } }
}

/// The error answer when the store's state cannot be read.
pub fn context_status_error(message: &str) -> (r: ErrorResponse)
    ensures
        r.message@ == "读取 context 状态失败: "@ + message@,
        r.status == STATUS_INTERNAL_ERROR,
{
    let mut text = String::from_str("读取 context 状态失败: ");
    text.append(message);
    ErrorResponse { message: text, status: STATUS_INTERNAL_ERROR }
}

/// A request to extract memories from a session.
#[derive(Debug, Clone)]
pub struct MemoryExtractRequest {
    pub session_id: String,
    pub force: bool,
    pub max_messages: Option<usize>,
}

/// A memory search request.
#[derive(Debug, Clone)]
pub struct MemorySearchRequest {
    pub query: String,
    pub limit: Option<usize>,
    pub session_id: Option<String>,
    /// Category names to search in
    pub categories: Option<Vec<String>>,
}

/// The memories found.
#[derive(Debug)]
pub struct MemorySearchResponse {
    pub results: Vec<JsonValue>,
}

/// The status for a failed memory extraction: 404 when the session does not
/// exist, else 500.
pub fn memory_extract_status(message: &str) -> (r: u16)
    ensures
        r == if contains(message@, "Session not found"@) { STATUS_NOT_FOUND } else { STATUS_INTERNAL_ERROR },
{
    if contains_chars(chars_of(message).as_slice(), chars_of("Session not found").as_slice()) {
        STATUS_NOT_FOUND
    } else {
        STATUS_INTERNAL_ERROR
    }
}

/// A chat turn sent to the reply route.
#[derive(Debug)]
pub struct ChatRequest {
    pub user_message: JsonValue,
    pub conversation_so_far: Option<Vec<JsonValue>>,
    pub session_id: String,
    pub recipe_name: Option<String>,
    pub recipe_version: Option<String>,
    pub include_context_trace: Option<bool>,
    pub context_trace_level: Option<ContextTraceLevel>,
    pub context_trace_redact: Option<bool>,
}

/// How a reply treats context traces: whether they are asked for, how much
/// detail they keep, and whether they are redacted.
#[derive(Debug, Clone, Copy, PartialEq, Eq, Structural)]
pub struct ReplySettings {
    pub include_context_trace: bool,
    pub context_trace_level: ContextTraceLevel,
    pub context_trace_redact: bool,
}

/// The trace settings of a chat turn: no trace, basic detail and redaction
/// unless the request says otherwise.
pub fn reply_settings(request: &ChatRequest) -> (r: ReplySettings)
    ensures
        r.include_context_trace == match request.include_context_trace {
            Some(b) => b,
            None => false,
        },
        r.context_trace_level == match request.context_trace_level {
            Some(l) => l,
            None => ContextTraceLevel::Basic,
        },
        r.context_trace_redact == match request.context_trace_redact {
            Some(b) => b,
            None => true,
        },
{
    ReplySettings {
        include_context_trace: match request.include_context_trace {
            Some(b) => b,
            None => false,
        },
        context_trace_level: match request.context_trace_level {
            Some(l) => l,
            None => ContextTraceLevel::Basic,
        },
        context_trace_redact: match request.context_trace_redact {
            Some(b) => b,
            None => true,
        },
    }
}

/// What happened while serving a reply.
pub enum ReplyEvent {
    /// The session's agent could not be had
    AgentUnavailable(String),
    /// The session could not be read
    SessionUnavailable(String),
    /// The agent's reply stream could not be started
    StartFailed(String),
    /// The agent produced a message
    Message,
    /// The agent replaced the conversation
    HistoryReplaced,
    /// The agent changed model
    ModelChange,
    /// The agent resolved context, in these steps
    ContextTrace(Vec<ContextTraceStep>),
    /// A tool server sent a notification
    Notification,
    /// The agent's stream failed
    StreamError(String),
    /// The agent's stream ended
    StreamEnd,
    /// No event came in time; whether the client has gone
    Idle { client_gone: bool },
    /// The reply was cancelled
    Cancelled,
    /// The heartbeat is due
    Heartbeat,
}

/// What the reply stream does next.
pub enum ReplyAction {
    /// Send the agent's message (with the session's token counts)
    SendMessage,
    /// Send the new conversation
    SendConversation,
    /// Send the model change
    SendModelChange,
    /// Send these trace steps
    SendContextTrace(Vec<ContextTraceStepResponse>),
    /// Send the notification
    SendNotification,
    /// Send a keep-alive ping
    SendPing,
    /// Wait for the next event
    Wait,
    /// Send this error and stop (without the final event)
    Abort(String),
    /// Send this error, then finish
    FailAndFinish(String),
    /// Finish: send the final event with reason `stop`
    Finish,
}

/// What the reply stream does for an event. Failing to get the agent or the
/// session, or to start the stream, aborts with a message; a stream error is
/// reported before finishing; the end of the stream, a cancellation or a gone
/// client finish; trace steps are passed on as the settings ask.
pub fn reply_step(settings: ReplySettings, event: ReplyEvent) -> (r: ReplyAction)
    ensures
        match event {
            ReplyEvent::AgentUnavailable(e) => r matches ReplyAction::Abort(m) && m@ == "Failed to get session agent: "@ + e@,
            ReplyEvent::SessionUnavailable(e) => r matches ReplyAction::Abort(m) && m@ == "Failed to read session: "@ + e@,
            ReplyEvent::StartFailed(e) => r matches ReplyAction::Abort(m) && m@ == e@,
            ReplyEvent::Message => r is SendMessage,
            ReplyEvent::HistoryReplaced => r is SendConversation,
            ReplyEvent::ModelChange => r is SendModelChange,
            ReplyEvent::ContextTrace(steps) => r matches ReplyAction::SendContextTrace(out) && out@.len() == steps@.len()
                && forall|i: int| 0 <= i < out@.len() ==> (#[trigger] out@[i]).stage@ == steps@[i].stage@
                    && out@[i].detail@ == crate::trace::step_detail(steps@[i].stage@, steps@[i].detail@, settings.context_trace_level, settings.context_trace_redact),
            ReplyEvent::Notification => r is SendNotification,
            ReplyEvent::StreamError(e) => r matches ReplyAction::FailAndFinish(m) && m@ == e@,
            ReplyEvent::StreamEnd => r is Finish,
            ReplyEvent::Idle { client_gone } => if client_gone { r is Finish } else { r is Wait },
            ReplyEvent::Cancelled => r is Finish,
            ReplyEvent::Heartbeat => r is SendPing,
        },
{
    match event {
        ReplyEvent::AgentUnavailable(e) => {
            let mut m = String::from_str("Failed to get session agent: ");
            m.append(e.as_str());
            ReplyAction::Abort(m)
        },
        ReplyEvent::SessionUnavailable(e) => {
            let mut m = String::from_str("Failed to read session: ");
            m.append(e.as_str());
            ReplyAction::Abort(m)
        },
        ReplyEvent::StartFailed(e) => ReplyAction::Abort(e),
        ReplyEvent::Message => ReplyAction::SendMessage,
        ReplyEvent::HistoryReplaced => ReplyAction::SendConversation,
        ReplyEvent::ModelChange => ReplyAction::SendModelChange,
        ReplyEvent::ContextTrace(steps) => ReplyAction::SendContextTrace(
            transform_context_trace_steps(steps, settings.context_trace_level, settings.context_trace_redact),
        ),
        ReplyEvent::Notification => ReplyAction::SendNotification,
        ReplyEvent::StreamError(e) => ReplyAction::FailAndFinish(e),
        ReplyEvent::StreamEnd => ReplyAction::Finish,
        ReplyEvent::Idle { client_gone } => if client_gone {
            ReplyAction::Finish
        } else {
            ReplyAction::Wait
        },
        ReplyEvent::Cancelled => ReplyAction::Finish,
        ReplyEvent::Heartbeat => ReplyAction::SendPing,
    }
}

/// One server-sent event carrying a JSON payload.
pub fn sse_frame(json: &str) -> (r: String)
    ensures
        r@ == "data: "@ + json@ + "\n\n"@,
{
    let mut r = String::from_str("data: ");
    r.append(json);
    r.append("\n\n");
    r
}


/// One piece of a message, as far as tool telemetry reads it: a tool request
/// (its id, and the tool's name when the call was well formed), a tool
/// response (the id it answers and whether the tool succeeded), or anything
/// else.
#[derive(Debug, Clone)]
pub enum MessageContent {
    ToolRequest { id: String, tool_name: Option<String> },
    ToolResponse { id: String, success: bool },
    Other,
}

/// A message of the conversation: its pieces, in order.
#[derive(Debug, Clone)]
pub struct Message {
    pub content: Vec<MessageContent>,
}

/// What the telemetry records for one piece of a message.
#[derive(Debug, Clone, PartialEq, Eq)]
pub enum ToolTelemetry {
    /// A tool call started.
    CallStarted { tool_name: String },
    /// A tool call completed; `result` is `success` or `error`.
    CallCompleted { tool_name: String, result: String },
}

/// The name of the first well-formed request with this id among the pieces.
pub open spec fn request_name_in(cs: Seq<MessageContent>, id: Seq<char>) -> Option<Seq<char>>
    decreases cs.len(),
{
    if cs.len() == 0 {
        None
    } else {
        match cs[0] {
            MessageContent::ToolRequest { id: rid, tool_name: Some(n) } => if rid@ == id {
                Some(n@)
            } else {
                request_name_in(cs.skip(1), id)
            },
            _ => request_name_in(cs.skip(1), id),
        }
    }
}

/// The name of the tool requested under this id, looking at the latest
/// message first.
pub open spec fn requested_tool_name(ms: Seq<Message>, id: Seq<char>) -> Option<Seq<char>>
    decreases ms.len(),
{
    if ms.len() == 0 {
        None
    } else {
        match request_name_in(ms.last().content@, id) {
            Some(n) => Some(n),
            None => requested_tool_name(ms.drop_last(), id),
        }
    }
}

fn request_name_of(cs: &Vec<MessageContent>, id: &str) -> (r: Option<String>)
    ensures
        match r {
            Some(n) => request_name_in(cs@, id@) == Some(n@),
            None => request_name_in(cs@, id@) is None,
        },
{
    let mut i: usize = cs.len();
    let mut found: Option<String> = None;
    proof {
        assert(cs@.skip(cs@.len() as int) =~= Seq::<MessageContent>::empty());
    }
    while i > 0
        invariant
            i <= cs@.len(),
            match found {
                Some(n) => request_name_in(cs@.skip(i as int), id@) == Some(n@),
                None => request_name_in(cs@.skip(i as int), id@) is None,
            },
        decreases i,
    {
        let ghost rest = cs@.skip(i as int);
        proof {
            assert(cs@.skip(i - 1).skip(1) =~= rest);
            assert(cs@.skip(i - 1)[0] == cs@[i - 1]);
        }
        match &cs[i - 1] {
            MessageContent::ToolRequest { id: rid, tool_name: Some(n) } => {
                if str_eq(rid.as_str(), id) {
                    found = Some(n.clone());
                }
            },
            _ => {},
        }
        i = i - 1;
    }
    proof {
        assert(cs@.skip(0) =~= cs@);
    }
    found
}

/// What the telemetry records for a piece of the reply stream: a started call
/// for a well-formed tool request; for a tool response, a completed call
/// named after the latest request with its id (`unknown` when none is
/// found) with `success` or `error`; nothing for anything else.
pub fn track_tool_telemetry(content: &MessageContent, all_messages: &[Message]) -> (r: Option<ToolTelemetry>)
    ensures
        match *content {
            MessageContent::ToolRequest { tool_name: Some(n), .. } => r matches Some(ToolTelemetry::CallStarted { tool_name: t })
                && t@ == n@,
            MessageContent::ToolResponse { id, success } => r matches Some(ToolTelemetry::CallCompleted { tool_name: t, result: s })
                && t@ == (match requested_tool_name(all_messages@, id@) {
                    Some(n) => n,
                    None => "unknown"@,
                })
                && s@ == (if success { "success"@ } else { "error"@ }),
            _ => r is None,
        },
{
    match content {
        MessageContent::ToolRequest { tool_name: Some(n), .. } => Some(ToolTelemetry::CallStarted { tool_name: n.clone() }),
        MessageContent::ToolResponse { id, success } => {
            let mut k: usize = all_messages.len();
            let mut name: Option<String> = None;
            proof {
                assert(all_messages@.take(k as int) =~= all_messages@);
            }
            while k > 0 && name.is_none()
                invariant
                    k <= all_messages@.len(),
                    match name {
                        Some(n) => requested_tool_name(all_messages@, id@) == Some(n@),
                        None => requested_tool_name(all_messages@, id@) == requested_tool_name(all_messages@.take(k as int), id@),
                    },
                decreases k,
            {
                proof {
                    assert(all_messages@.take(k as int).drop_last() =~= all_messages@.take(k - 1));
                    assert(all_messages@.take(k as int).last() == all_messages@[k - 1]);
                }
                name = request_name_of(&all_messages[k - 1].content, id.as_str());
                k = k - 1;
            }
            proof {
                if name is None {
                    assert(all_messages@.take(0) =~= Seq::<Message>::empty());
                }
            }
            let tool_name = match name {
                Some(n) => n,
                None => String::from_str("unknown"),
            };
            let result = if *success {
                String::from_str("success")
            } else {
                String::from_str("error")
            };
            Some(ToolTelemetry::CallCompleted { tool_name, result })
        },
        _ => None,
    }
}

} // verus!
