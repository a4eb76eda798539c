//! Teleport: repository identity of remote sessions.

use vstd::prelude::*;
use crate::text::{
    chars_of, ends_with, find_char, find_char_from, has_prefix, has_suffix, lowercase,
    slice_range, starts_with, str_eq, string_from, to_lowercase, trim, trim_chars,
};

verus! {

/// Outcome of checking a session's repository against the current one.
#[derive(Debug, Clone, Copy, PartialEq, Eq, Structural)]
pub enum RepoValidationStatus {
    Match,
    Mismatch,
    NoValidation,
    Error,
}

/// Result of a repository check.
#[derive(Debug, Clone)]
pub struct RepoValidationResult {
    pub status: RepoValidationStatus,
    pub session_repo: Option<String>,
    pub current_repo: Option<String>,
    pub error_message: Option<String>,
}

/// Remote session configuration.
#[derive(Debug, Clone)]
pub struct TeleportConfig {
    pub session_id: String,
    pub ingress_url: Option<String>,
    pub auth_token: Option<String>,
    pub metadata: Option<TeleportMetadata>,
}

/// Remote session metadata.
#[derive(Debug, Clone, Default)]
pub struct TeleportMetadata {
    pub repo: Option<String>,
    pub branch: Option<String>,
    pub created_at: Option<String>,
    pub updated_at: Option<String>,
}

/// Kinds of message exchanged with a remote session.
#[derive(Debug, Clone, Copy, PartialEq, Eq, Structural)]
pub enum RemoteMessageType {
    SyncRequest,
    SyncResponse,
    Message,
    AssistantMessage,
    ToolResult,
    Heartbeat,
    Error,
}

/// Synchronisation progress.
#[derive(Debug, Clone, Default)]
pub struct SyncState {
    pub syncing: bool,
    pub last_sync_time: Option<String>,
    pub synced_messages: u32,
    pub sync_error: Option<String>,
}

/// Connection status of a remote session.
#[derive(Debug, Clone, Copy, PartialEq, Eq, Structural)]
pub enum ConnectionState {
    Disconnected,
    Connecting,
    Connected,
    Syncing,
    Error,
}

impl Default for ConnectionState {
    fn default() -> (r: Self)
        ensures
            r == ConnectionState::Disconnected,
    {
        ConnectionState::Disconnected
    }
}

/// State of a remote session.
#[derive(Debug, Clone)]
pub struct RemoteSessionState {
    pub connection_state: ConnectionState,
    pub sync_state: SyncState,
    pub config: TeleportConfig,
    pub error: Option<String>,
}

/// A repository URL before lower-casing: trimmed, without `.git`, SSH form
/// `git@host:path` rewritten to `https://host/path`, without a final `/`.
pub open spec fn repo_url_shape(u: Seq<char>) -> Seq<char> {
    let t = trim(u);
    let a = if has_suffix(t, ".git"@) {
        t.take(t.len() - 4)
    } else {
        t
    };
    let b = if has_prefix(a, "git@"@) {
        let c = a.skip(4);
        match find_char_from(c, ':', 0) {
            Some(i) => "https://"@ + c.take(i) + "/"@ + c.skip(i + 1),
            None => a,
        }
    } else {
        a
    };
    if b.len() > 0 && b.last() == '/' {
        b.drop_last()
    } else {
        b
    }
}

/// The canonical form two URLs of one repository share.
pub open spec fn normalized_repo_url(u: Seq<char>) -> Seq<char> {
    lowercase(repo_url_shape(u))
}

/// The canonical form of a repository URL.
pub fn normalize_repo_url(url: &str) -> (r: String)
    ensures
        r@ == normalized_repo_url(url@),
{
    let u = chars_of(url);
    let t = trim_chars(u.as_slice());
    let git = chars_of(".git");
    let at = chars_of("git@");
    proof {
        reveal_strlit(".git");
        reveal_strlit("git@");
        assert(git@.len() == 4);
        assert(at@.len() == 4);
    }
    let a = if ends_with(t.as_slice(), git.as_slice()) {
        let r = slice_range(t.as_slice(), 0, t.len() - 4);
        proof {
            assert(r@ =~= t@.take(t@.len() - 4));
        }
        r
    } else {
        t
    };
    let b = if starts_with(a.as_slice(), at.as_slice()) {
        let c = slice_range(a.as_slice(), 4, a.len());
        proof {
            assert(c@ =~= a@.skip(4));
        }
        match find_char(c.as_slice(), ':') {
            Some(i) => {
                let host = slice_range(c.as_slice(), 0, i);
                let path = slice_range(c.as_slice(), i + 1, c.len());
                let mut out = chars_of("https://");
                out.extend_from_slice(host.as_slice());
                out.push('/');
                out.extend_from_slice(path.as_slice());
                proof {
                    reveal_strlit("/");
                    assert(host@ =~= c@.take(i as int));
                    assert(path@ =~= c@.skip(i + 1));
                    assert(out@ =~= "https://"@ + c@.take(i as int) + "/"@ + c@.skip(i + 1));
                }
                out
            },
            None => a,
        }
    } else {
        a
    };
    let d = if b.len() > 0 && b[b.len() - 1] == '/' {
        let r = slice_range(b.as_slice(), 0, b.len() - 1);
        proof {
            assert(r@ =~= b@.drop_last());
        }
        r
    } else {
        b
    };
    let s = string_from(d.as_slice());
    to_lowercase(s.as_str())
}

/// Whether two URLs name the same repository.
pub fn compare_repo_urls(url1: &str, url2: &str) -> (r: bool)
    ensures
        r == (normalized_repo_url(url1@) == normalized_repo_url(url2@)),
{
    let a = normalize_repo_url(url1);
    let b = normalize_repo_url(url2);
    str_eq(a.as_str(), b.as_str())
}

/// Naming the same repository is an equivalence: every URL names its own
/// repository, the comparison is symmetric, and it chains.
pub proof fn lemma_same_repository_is_equivalence(u1: Seq<char>, u2: Seq<char>, u3: Seq<char>)
    ensures
        normalized_repo_url(u1) == normalized_repo_url(u1),
        (normalized_repo_url(u1) == normalized_repo_url(u2)) == (normalized_repo_url(u2)
            == normalized_repo_url(u1)),
        normalized_repo_url(u1) == normalized_repo_url(u2) && normalized_repo_url(u2)
            == normalized_repo_url(u3) ==> normalized_repo_url(u1) == normalized_repo_url(u3),
{
}

/// The result of checking `session_repo` against the current repository
/// `current_repo` (as found in the working directory, if any).
pub fn repo_validation_result(session_repo: Option<&str>, current_repo: Option<String>) -> (r: RepoValidationResult)
    ensures
        match session_repo {
            None => r.status == RepoValidationStatus::NoValidation && r.session_repo is None
                && r.current_repo is None && r.error_message is None,
            Some(s) => match current_repo {
                None => r.status == RepoValidationStatus::Error && r.session_repo == Some::<String>(
                    r.session_repo->0,
                ) && r.session_repo->0@ == s@ && r.current_repo is None && (r.error_message matches Some(m) && m@
                    == "当前目录不是 git 仓库"@),
                Some(c) => r.session_repo is Some && r.session_repo->0@ == s@ && r.current_repo
                    == Some(c) && r.error_message is None && r.status == if normalized_repo_url(s@)
                    == normalized_repo_url(c@) {
                    RepoValidationStatus::Match
                } else {
                    RepoValidationStatus::Mismatch
                },
            },
        },
{
    let session_repo = match session_repo {
        None => {
            return RepoValidationResult {
                status: RepoValidationStatus::NoValidation,
                session_repo: None,
                current_repo: None,
                error_message: None,
            };
        },
        Some(s) => s,
    };
    match current_repo {
        None => RepoValidationResult {
            status: RepoValidationStatus::Error,
            session_repo: Some(String::from_str(session_repo)),
            current_repo: None,
            error_message: Some(String::from_str("当前目录不是 git 仓库")),
        },
        Some(current) => {
            let same = compare_repo_urls(session_repo, current.as_str());
            RepoValidationResult {
                status: if same {
                    RepoValidationStatus::Match
                } else {
                    RepoValidationStatus::Mismatch
                },
                session_repo: Some(String::from_str(session_repo)),
                current_repo: Some(current),
                error_message: None,
            }
        },
    }
}

/// The text a git command printed, trimmed: none when the command failed or
/// printed nothing but white space.
pub open spec fn git_output(success: bool, stdout: Seq<u8>) -> Option<Seq<char>> {
    if success && trim(crate::read::utf8_lossy(stdout)).len() > 0 {
        Some(trim(crate::read::utf8_lossy(stdout)))
    } else {
        None
    }
}

/// What a git command printed (see `git_output`).
pub fn git_output_text(success: bool, stdout: &[u8]) -> (r: Option<String>)
    ensures
        match r {
            Some(t) => git_output(success, stdout@) == Some(t@),
            None => git_output(success, stdout@) is None,
        },
{
    if !success {
        return None;
    }
    let text = crate::read::decode_utf8_lossy(stdout);
    let t = trim_chars(chars_of(text.as_str()).as_slice());
    if t.len() == 0 {
        None
    } else {
        Some(string_from(t.as_slice()))
    }
}

/// Whether `git status --porcelain` found the working tree clean: it ran and
/// printed nothing but white space.
pub fn porcelain_is_clean(success: bool, stdout: &[u8]) -> (r: bool)
    ensures
        r == (success && trim(crate::read::utf8_lossy(stdout@)).len() == 0),
{
    if !success {
        return false;
    }
    let text = crate::read::decode_utf8_lossy(stdout);
    let t = trim_chars(chars_of(text.as_str()).as_slice());
    t.len() == 0
}


/// A `.git` suffix never tells two repository URLs apart, whatever their
/// scheme: a trimmed URL that does not itself end in `.git` names the same
/// repository with `.git` appended.
pub proof fn lemma_git_suffix_ignored(u: Seq<char>)
    requires
        crate::text::trim(u) == u,
        !has_suffix(u, ".git"@),
    ensures
        normalized_repo_url(u + ".git"@) == normalized_repo_url(u),
{
    reveal_strlit(".git");
    let s = u + ".git"@;
    crate::text::lemma_trim_ends(u);
    assert(s.last() == 't');
    if u.len() > 0 {
        assert(s[0] == u[0]);
    } else {
        assert(s[0] == '.');
    }
    crate::text::lemma_trim_unpadded(s);
    assert(s.skip(s.len() - 4) =~= ".git"@);
    assert(s.take(s.len() - 4) =~= u);
}

} // verus!

