//! Types shared by the tools: results, options, execution context, permission
//! answers and errors.

use vstd::prelude::*;
use crate::json::JsonValue;
use crate::text::{chars_of, eq_chars};

verus! {

/// Why a tool call failed.
#[derive(Debug, Clone, PartialEq, Eq)]
pub enum ToolError {
    InvalidParams(String),
    ExecutionFailed(String),
    NotFound(String),
    /// Timed out after this many milliseconds
    Timeout(u64),
    Cancelled,
}

/// The outcome of a tool call.
#[derive(Debug, PartialEq)]
pub struct ToolResult {
    pub success: bool,
    pub output: Option<String>,
    pub error: Option<String>,
    /// Extra data, one entry per key
    pub metadata: Vec<(String, JsonValue)>,
}

/// The metadata value stored under `key`.
pub open spec fn metadata_value(m: Seq<(String, JsonValue)>, key: Seq<char>) -> Option<JsonValue>
    decreases m.len(),
{
    if m.len() == 0 {
        None
    } else if m.last().0@ == key {
        Some(m.last().1)
    } else {
        metadata_value(m.drop_last(), key)
    }
}

impl ToolResult {
    /// A successful result with this output.
    pub fn success(output: &str) -> (r: Self)
        ensures
            r.success,
            r.output is Some && r.output->0@ == output@,
            r.error is None,
            r.metadata@.len() == 0,
    {
        ToolResult { success: true, output: Some(String::from_str(output)), error: None, metadata: Vec::new() }
    }

    /// A failed result with this error message.
    pub fn error(message: &str) -> (r: Self)
        ensures
            !r.success,
            r.output is None,
            r.error is Some && r.error->0@ == message@,
            r.metadata@.len() == 0,
    {
        ToolResult { success: false, output: None, error: Some(String::from_str(message)), metadata: Vec::new() }
    }

    /// The same result with `key` set to `value` in its metadata.
    pub fn with_metadata(self, key: &str, value: JsonValue) -> (r: Self)
        ensures
            r.success == self.success,
            r.output == self.output,
            r.error == self.error,
            metadata_value(r.metadata@, key@) == Some(value),
            forall|k: Seq<char>| k != key@ ==> metadata_value(r.metadata@, k) == metadata_value(self.metadata@, k),
    {
        let mut metadata = self.metadata;
        let ghost before = metadata@;
        metadata.push((String::from_str(key), value));
        proof {
            assert(metadata@.drop_last() =~= before);
        }
        ToolResult { success: self.success, output: self.output, error: self.error, metadata }
    }

    /// Whether the call succeeded.
    pub fn is_success(&self) -> (r: bool)
        ensures
            r == self.success,
    {
        self.success
    }

    /// Whether the call failed.
    pub fn is_error(&self) -> (r: bool)
        ensures
            r == !self.success,
    {
        !self.success
    }

    /// The text of the result: its output, else its error message, else nothing.
    pub fn content(&self) -> (r: String)
        ensures
            r@ == match self.output {
                Some(o) => o@,
                None => match self.error {
                    Some(e) => e@,
                    None => Seq::<char>::empty(),
                },
            },
    {
        match &self.output {
            Some(o) => o.clone(),
            None => match &self.error {
                Some(e) => e.clone(),
                None => String::new(),
            },
        }
    }

    /// The same result with its output replaced.
    pub fn with_content(self, content: String) -> (r: Self)
        ensures
            r.success == self.success,
            r.output == Some(content),
            r.error == self.error,
            r.metadata == self.metadata,
    {
        ToolResult { success: self.success, output: Some(content), error: self.error, metadata: self.metadata }
    }

    /// The metadata value stored under `key`.
    pub fn metadata_get(&self, key: &str) -> (r: Option<&JsonValue>)
        ensures
            match r {
                Some(v) => metadata_value(self.metadata@, key@) == Some(*v),
                None => metadata_value(self.metadata@, key@) is None,
            },
    {
        let k = chars_of(key);
        let mut i = self.metadata.len();
        proof {
            assert(self.metadata@.take(i as int) =~= self.metadata@);
        }
        while i > 0
            invariant
                i <= self.metadata@.len(),
                k@ == key@,
                metadata_value(self.metadata@.take(i as int), key@) == metadata_value(self.metadata@, key@),
            decreases i,
        {
            proof {
                assert(self.metadata@.take(i as int).drop_last() =~= self.metadata@.take(i - 1));
                assert(self.metadata@.take(i as int).last() == self.metadata@[i - 1]);
            }
            let kc = chars_of(self.metadata[i - 1].0.as_str());
            if eq_chars(kc.as_slice(), k.as_slice()) {
                return Some(&self.metadata[i - 1].1);
            }
            i = i - 1;
        }
        None
    }
}

/// How the tool runner treats a tool.
#[derive(Debug, Clone, Copy, PartialEq, Eq, Structural)]
pub struct ToolOptions {
    pub max_retries: u32,
    /// Base timeout, in seconds
    pub base_timeout_secs: u64,
    pub enable_dynamic_timeout: bool,
}

impl ToolOptions {
    /// Three retries, a 60 second base timeout, dynamic timeouts on.
    pub fn new() -> (r: Self)
        ensures
            r.max_retries == 3,
            r.base_timeout_secs == 60,
            r.enable_dynamic_timeout,
    {
        ToolOptions { max_retries: 3, base_timeout_secs: 60, enable_dynamic_timeout: true }
    }

    pub fn with_max_retries(self, n: u32) -> (r: Self)
        ensures
            r == (ToolOptions { max_retries: n, ..self }),
    {
        ToolOptions { max_retries: n, ..self }
    }

    pub fn with_base_timeout_secs(self, secs: u64) -> (r: Self)
        ensures
            r == (ToolOptions { base_timeout_secs: secs, ..self }),
    {
        ToolOptions { base_timeout_secs: secs, ..self }
    }

    pub fn with_dynamic_timeout(self, enabled: bool) -> (r: Self)
        ensures
            r == (ToolOptions { enable_dynamic_timeout: enabled, ..self }),
    {
        ToolOptions { enable_dynamic_timeout: enabled, ..self }
    }
}

/// The context a tool runs in.
#[derive(Debug, Clone)]
pub struct ToolContext {
    pub working_directory: String,
    /// Empty when there is no session
    pub session_id: String,
    pub user: Option<String>,
    /// Environment variables, one entry per name
    pub environment: Vec<(String, String)>,
    pub cancelled: bool,
}

/// The value of variable `key` in an environment list (the last entry with that name).
pub open spec fn env_value(env: Seq<(String, String)>, key: Seq<char>) -> Option<Seq<char>>
    decreases env.len(),
{
    if env.len() == 0 {
        None
    } else if env.last().0@ == key {
        Some(env.last().1@)
    } else {
        env_value(env.drop_last(), key)
    }
}

impl ToolContext {
    /// A context for this working directory, without session, user or variables.
    pub fn new(working_directory: String) -> (r: Self)
        ensures
            r.working_directory == working_directory,
            r.session_id@.len() == 0,
            r.user is None,
            r.environment@.len() == 0,
            !r.cancelled,
    {
        ToolContext { working_directory, session_id: String::new(), user: None, environment: Vec::new(), cancelled: false }
    }

    pub fn with_session_id(self, session_id: &str) -> (r: Self)
        ensures
            r.session_id@ == session_id@,
            r.working_directory == self.working_directory,
            r.user == self.user,
            r.environment == self.environment,
            r.cancelled == self.cancelled,
    {
        ToolContext { session_id: String::from_str(session_id), ..self }
    }

    pub fn with_user(self, user: &str) -> (r: Self)
        ensures
            r.user is Some && r.user->0@ == user@,
            r.working_directory == self.working_directory,
            r.session_id == self.session_id,
            r.environment == self.environment,
            r.cancelled == self.cancelled,
    {
        ToolContext { user: Some(String::from_str(user)), ..self }
    }

    /// The same context with variable `key` set to `value`.
    pub fn with_env_var(self, key: &str, value: &str) -> (r: Self)
        ensures
            env_value(r.environment@, key@) == Some(value@),
            forall|k: Seq<char>| k != key@ ==> env_value(r.environment@, k) == env_value(self.environment@, k),
            r.working_directory == self.working_directory,
            r.session_id == self.session_id,
            r.user == self.user,
            r.cancelled == self.cancelled,
    {
        let mut environment = self.environment;
        let ghost before = environment@;
        environment.push((String::from_str(key), String::from_str(value)));
        proof {
            assert(environment@.drop_last() =~= before);
        }
        ToolContext { environment, ..self }
    }

    /// The value of environment variable `key`.
    pub fn env(&self, key: &str) -> (r: Option<String>)
        ensures
            match r {
                Some(v) => env_value(self.environment@, key@) == Some(v@),
                None => env_value(self.environment@, key@) is None,
            },
    {
        let k = chars_of(key);
        let mut i = self.environment.len();
        proof {
            assert(self.environment@.take(i as int) =~= self.environment@);
        }
        while i > 0
            invariant
                i <= self.environment@.len(),
                k@ == key@,
                env_value(self.environment@.take(i as int), key@) == env_value(self.environment@, key@),
            decreases i,
        {
            proof {
                assert(self.environment@.take(i as int).drop_last() =~= self.environment@.take(i - 1));
                assert(self.environment@.take(i as int).last() == self.environment@[i - 1]);
            }
            let kc = chars_of(self.environment[i - 1].0.as_str());
            if eq_chars(kc.as_slice(), k.as_slice()) {
                return Some(self.environment[i - 1].1.clone());
            }
            i = i - 1;
        }
        None
    }
}

/// A permission answer.
#[derive(Debug, Clone, Copy, PartialEq, Eq, Structural)]
pub enum PermissionBehavior {
    Allow,
    Deny,
    Ask,
}

/// A tool's answer to "may this call run?".
#[derive(Debug, Clone)]
pub struct PermissionCheckResult {
    pub behavior: PermissionBehavior,
    pub message: Option<String>,
}

impl PermissionCheckResult {
    pub fn allow() -> (r: Self)
        ensures
            r.behavior == PermissionBehavior::Allow,
            r.message is None,
    {
        PermissionCheckResult { behavior: PermissionBehavior::Allow, message: None }
    }

    pub fn deny(message: &str) -> (r: Self)
        ensures
            r.behavior == PermissionBehavior::Deny,
            r.message is Some && r.message->0@ == message@,
    {
        PermissionCheckResult { behavior: PermissionBehavior::Deny, message: Some(String::from_str(message)) }
    }

    /// An answer that leaves the decision to the user, with this reason.
    pub fn ask(message: &str) -> (r: Self)
        ensures
            r.behavior == PermissionBehavior::Ask,
            r.message is Some && r.message->0@ == message@,
    {
        PermissionCheckResult { behavior: PermissionBehavior::Ask, message: Some(String::from_str(message)) }
    }

    pub fn is_allowed(&self) -> (r: bool)
        ensures
            r == (self.behavior == PermissionBehavior::Allow),
    {
        match self.behavior {
            PermissionBehavior::Allow => true,
            _ => false,
        }
    }

    pub fn is_denied(&self) -> (r: bool)
        ensures
            r == (self.behavior == PermissionBehavior::Deny),
    {
        match self.behavior {
            PermissionBehavior::Deny => true,
            _ => false,
        }
    }
}

} // verus!
