//! Context-trace steps as reported to clients: per-stage simplification and
//! redaction of session identifiers and absolute Unix paths.

use vstd::prelude::*;
use crate::text::{
    chars_of, concat_str, contains, has_prefix, is_whitespace, is_ws, matches_at, occurs_at,
    slice_range, split_chars, split_on, starts_with, str_eq, string_from, to_owned_string, trim,
    trim_chars,
};

verus! {

/// One step of the context pipeline's trace.
#[derive(Debug, Clone)]
pub struct ContextTraceStep {
    pub stage: String,
    pub detail: String,
}

/// A trace step as sent in a reply stream.
#[derive(Debug, Clone)]
pub struct ContextTraceStepResponse {
    pub stage: String,
    pub detail: String,
}

/// How much of each step's detail to keep.
#[derive(Debug, Clone, Copy, PartialEq, Eq, Structural)]
pub enum ContextTraceLevel {
    Basic,
    Verbose,
}

impl Default for ContextTraceLevel {
    fn default() -> (r: Self)
        ensures
            r == ContextTraceLevel::Basic,
    {
        ContextTraceLevel::Basic
    }
}

/// The value after `key` in the first comma-separated, trimmed part of
/// `parts[i..]` that starts with `key`.
pub open spec fn key_value_from(parts: Seq<Seq<char>>, key: Seq<char>, i: int) -> Option<Seq<char>>
    decreases parts.len() - i,
{
    if i < 0 || i >= parts.len() {
        None
    } else if has_prefix(trim(parts[i]), key) {
        Some(trim(parts[i]).skip(key.len() as int))
    } else {
        key_value_from(parts, key, i + 1)
    }
}

/// The value of `key` in a `k=v, k=v` style detail string.
pub open spec fn key_value(detail: Seq<char>, key: Seq<char>) -> Option<Seq<char>> {
    key_value_from(split_on(detail, ','), key, 0)
}

/// The value, or `?` when absent.
pub open spec fn or_question(v: Option<Seq<char>>) -> Seq<char> {
    match v {
        Some(x) => x,
        None => "?"@,
    }
}

/// The short form of a step's detail, by stage.
pub open spec fn simplified(stage: Seq<char>, detail: Seq<char>) -> Seq<char> {
    if stage == "session"@ {
        "session initialized"@
    } else if stage == "conversation_input"@ {
        match key_value(detail, "messages="@) {
            Some(count) => "messages="@ + count,
            None => "conversation captured"@,
        }
    } else if stage == "conversation_fixed"@ {
        "messages="@ + or_question(key_value(detail, "messages="@)) + ", issues="@ + or_question(
            key_value(detail, "issues="@),
        )
    } else if stage == "tools_ready"@ {
        "tools="@ + or_question(key_value(detail, "tools="@)) + ", toolshim_tools="@
            + or_question(key_value(detail, "toolshim_tools="@))
    } else if stage == "mode"@ {
        detail
    } else {
        "step completed"@
    }
}

/// Whether `c` ends a redacted value or path.
pub open spec fn ends_value(c: char) -> bool {
    c == ',' || is_ws(c)
}

/// First index at or after `j` holding a comma or white space (or `s.len()`).
pub open spec fn value_end(s: Seq<char>, j: int) -> int
    decreases s.len() - j,
{
    if j < 0 || j >= s.len() || ends_value(s[j]) {
        j
    } else {
        value_end(s, j + 1)
    }
}

pub proof fn lemma_value_end(s: Seq<char>, j: int)
    requires
        0 <= j <= s.len(),
    ensures
        j <= value_end(s, j) <= s.len(),
    decreases s.len() - j,
{
    if j < s.len() && !ends_value(s[j]) {
        lemma_value_end(s, j + 1);
    }
}

/// `s[i..]` with every value written after `key` replaced by `<redacted>`.
pub open spec fn redact_kv_from(s: Seq<char>, key: Seq<char>, i: int) -> Seq<char>
    decreases s.len() - i,
{
    if i < 0 || i >= s.len() {
        seq![]
    } else if key.len() > 0 && occurs_at(s, key, i) {
        let e = value_end(s, i + key.len());
        proof {
            lemma_value_end(s, i + key.len());
        }
        key + "<redacted>"@ + redact_kv_from(s, key, e)
    } else {
        seq![s[i]] + redact_kv_from(s, key, i + 1)
    }
}

/// `s` with the value after each occurrence of `key` replaced by `<redacted>`.
pub open spec fn redact_kv(s: Seq<char>, key: Seq<char>) -> Seq<char> {
    redact_kv_from(s, key, 0)
}

/// Characters after which a `/` starts an absolute path.
pub open spec fn path_boundary(c: char) -> bool {
    is_ws(c) || c == ',' || c == '=' || c == ':' || c == '('
}

/// `s[i..]` with each absolute Unix path replaced by `<path>`.
pub open spec fn redact_paths_from(s: Seq<char>, i: int) -> Seq<char>
    decreases s.len() - i,
{
    if i < 0 || i >= s.len() {
        seq![]
    } else if s[i] == '/' && (i == 0 || path_boundary(s[i - 1])) {
        let e = value_end(s, i + 1);
        proof {
            lemma_value_end(s, i + 1);
        }
        "<path>"@ + redact_paths_from(s, e)
    } else {
        seq![s[i]] + redact_paths_from(s, i + 1)
    }
}

/// `s` with each absolute Unix path replaced by `<path>`.
pub open spec fn redact_paths(s: Seq<char>) -> Seq<char> {
    redact_paths_from(s, 0)
}

/// Whether `c` may stand just before a `/` that is left in the text.
pub open spec fn may_precede_kept_slash(c: char) -> bool {
    !is_ws(c) && c != ',' && c != '=' && c != ':' && c != '('
}

proof fn lemma_kept_slashes(s: Seq<char>, i: int)
    requires
        0 <= i <= s.len(),
    ensures
        ({
            let r = redact_paths_from(s, i);
            &&& r.len() > 0 && r[0] == '/' ==> i > 0 && may_precede_kept_slash(s[i - 1])
            &&& forall|j: int| 0 < j < r.len() && #[trigger] r[j] == '/' ==> may_precede_kept_slash(r[j - 1])
        }),
    decreases s.len() - i,
{
    if i < s.len() {
        if s[i] == '/' && (i == 0 || path_boundary(s[i - 1])) {
            let e = value_end(s, i + 1);
            lemma_value_end(s, i + 1);
            lemma_kept_slashes(s, e);
            reveal_strlit("<path>");
            let t = redact_paths_from(s, e);
            let r = "<path>"@ + t;
            assert(r == redact_paths_from(s, i));
            assert forall|j: int| 0 < j < r.len() && #[trigger] r[j] == '/' implies may_precede_kept_slash(r[j - 1]) by {
                if j >= 6 {
                    assert(r[j] == t[j - 6]);
                    if j > 6 {
                        assert(r[j - 1] == t[j - 7]);
                    }
                }
            }
        } else {
            lemma_kept_slashes(s, i + 1);
            let t = redact_paths_from(s, i + 1);
            let r = seq![s[i]] + t;
            assert(r == redact_paths_from(s, i));
            assert forall|j: int| 0 < j < r.len() && #[trigger] r[j] == '/' implies may_precede_kept_slash(r[j - 1]) by {
                assert(r[j] == t[j - 1]);
                if j > 1 {
                    assert(r[j - 1] == t[j - 2]);
                }
            }
        }
    }
}

/// After path redaction no `/` is left at the start of the text or just after
/// white space, a comma, `=`, `:` or `(`: every such slash began a path.
pub proof fn lemma_no_path_left(s: Seq<char>)
    ensures
        forall|j: int| 0 <= j < redact_paths(s).len() && #[trigger] redact_paths(s)[j] == '/'
            ==> j > 0 && may_precede_kept_slash(redact_paths(s)[j - 1]),
{
    lemma_kept_slashes(s, 0);
}

proof fn lemma_value_end_scan(s: Seq<char>, j: int)
    requires
        0 <= j <= s.len(),
    ensures
        forall|m: int| j <= m < value_end(s, j) ==> !ends_value(#[trigger] s[m]),
        value_end(s, j) == s.len() || ends_value(s[value_end(s, j)]),
    decreases s.len() - j,
{
    lemma_value_end(s, j);
    if j < s.len() && !ends_value(s[j]) {
        lemma_value_end_scan(s, j + 1);
    }
}

proof fn lemma_value_end_at(s: Seq<char>, j: int, k: int)
    requires
        0 <= j <= k <= s.len(),
        forall|m: int| j <= m < k ==> !ends_value(#[trigger] s[m]),
        k == s.len() || ends_value(s[k]),
    ensures
        value_end(s, j) == k,
    decreases k - j,
{
    if j < k {
        lemma_value_end_at(s, j + 1, k);
    }
}

/// Value ends inside `a` are found the same way in `a + b` when `a` ends with a separator.
proof fn lemma_value_end_in_prefix(a: Seq<char>, b: Seq<char>, j: int)
    requires
        0 <= j < a.len(),
        ends_value(a.last()),
    ensures
        value_end(a + b, j) == value_end(a, j) < a.len(),
{
    let k = value_end(a, j);
    lemma_value_end(a, j);
    lemma_value_end_scan(a, j);
    if k == a.len() {
        assert(!ends_value(a[a.len() - 1]));
    }
    assert forall|m: int| j <= m < k implies !ends_value(#[trigger] (a + b)[m]) by {
        assert((a + b)[m] == a[m]);
    }
    assert((a + b)[k] == a[k]);
    lemma_value_end_at(a + b, j, k);
}

/// Value ends inside `w` are found the same way in `p + w`.
proof fn lemma_value_end_in_suffix(p: Seq<char>, w: Seq<char>, j: int)
    requires
        0 <= j <= w.len(),
    ensures
        value_end(p + w, p.len() + j) == p.len() + value_end(w, j),
{
    let k = value_end(w, j);
    lemma_value_end(w, j);
    lemma_value_end_scan(w, j);
    assert forall|m: int| p.len() + j <= m < p.len() + k implies !ends_value(#[trigger] (p + w)[m]) by {
        assert((p + w)[m] == w[m - p.len()]);
    }
    if k < w.len() {
        assert((p + w)[p.len() + k] == w[k]);
    }
    lemma_value_end_at(p + w, p.len() + j, p.len() + k);
}

/// Redacting `a + b` from inside `a` handles `a` on its own when `a` ends with a separator.
proof fn lemma_redact_prefix(a: Seq<char>, b: Seq<char>, i: int)
    requires
        0 <= i <= a.len(),
        a.len() == 0 || ends_value(a.last()),
    ensures
        redact_paths_from(a + b, i) == redact_paths_from(a, i) + redact_paths_from(a + b, a.len() as int),
    decreases a.len() - i,
{
    let s = a + b;
    if i < a.len() {
        assert(s[i] == a[i]);
        if i > 0 {
            assert(s[i - 1] == a[i - 1]);
        }
        if a[i] == '/' && (i == 0 || path_boundary(a[i - 1])) {
            assert(i + 1 < a.len());
            lemma_value_end_in_prefix(a, b, i + 1);
            let e = value_end(a, i + 1);
            lemma_value_end(a, i + 1);
            lemma_redact_prefix(a, b, e);
            assert(redact_paths_from(s, i) == "<path>"@ + redact_paths_from(s, e));
            assert(redact_paths_from(a, i) == "<path>"@ + redact_paths_from(a, e));
        } else {
            lemma_redact_prefix(a, b, i + 1);
            assert(redact_paths_from(s, i) == seq![a[i]] + redact_paths_from(s, i + 1));
            assert(redact_paths_from(a, i) == seq![a[i]] + redact_paths_from(a, i + 1));
        }
    } else {
        assert(redact_paths_from(a, i) =~= Seq::<char>::empty());
    }
}

/// Redacting `p + w` from inside `w` handles `w` on its own, except that a slash
/// opening `w` may have been preceded by a separator in `p`.
proof fn lemma_redact_suffix(p: Seq<char>, w: Seq<char>, j: int)
    requires
        0 <= j <= w.len(),
        j > 0 || w.len() == 0 || w[0] != '/',
    ensures
        redact_paths_from(p + w, p.len() + j) == redact_paths_from(w, j),
    decreases w.len() - j,
{
    let s = p + w;
    let i = p.len() + j;
    if j < w.len() {
        assert(s[i] == w[j]);
        if j > 0 {
            assert(s[i - 1] == w[j - 1]);
        }
        if w[j] == '/' && (j == 0 || path_boundary(w[j - 1])) {
            lemma_value_end_in_suffix(p, w, j + 1);
            let e = value_end(w, j + 1);
            lemma_value_end(w, j + 1);
            lemma_redact_suffix(p, w, e);
            assert(redact_paths_from(s, i) == "<path>"@ + redact_paths_from(s, p.len() + e));
        } else {
            lemma_redact_suffix(p, w, j + 1);
            assert(redact_paths_from(s, i) == seq![w[j]] + redact_paths_from(s, i + 1));
        }
    }
}

/// Text without slashes is copied as it stands.
proof fn lemma_redact_plain(s: Seq<char>, i: int, n: int)
    requires
        0 <= i <= n <= s.len(),
        forall|m: int| i <= m < n ==> #[trigger] s[m] != '/',
    ensures
        redact_paths_from(s, i) == s.subrange(i, n) + redact_paths_from(s, n),
    decreases n - i,
{
    if i < n {
        lemma_redact_plain(s, i + 1, n);
        assert(s.subrange(i, n) =~= seq![s[i]] + s.subrange(i + 1, n));
    } else {
        assert(s.subrange(i, n) =~= Seq::<char>::empty());
    }
}

/// A path `'/' + q` (q free of commas and white space) ends where `w` begins.
proof fn lemma_path_run(p: Seq<char>, q: Seq<char>, w: Seq<char>)
    requires
        forall|m: int| 0 <= m < q.len() ==> !ends_value(#[trigger] q[m]),
        w.len() == 0 || ends_value(w[0]),
    ensures
        value_end(p + seq!['/'] + q + w, p.len() + 1int) == p.len() + 1 + q.len(),
        redact_paths_from(p + seq!['/'] + q + w, p.len() + 1int + q.len()) == redact_paths(w),
{
    let h = p + seq!['/'] + q;
    let s = h + w;
    assert forall|m: int| p.len() + 1 <= m < h.len() implies !ends_value(#[trigger] s[m]) by {
        assert(s[m] == q[m - p.len() - 1]);
    }
    if w.len() > 0 {
        assert(s[h.len() as int] == w[0]);
    }
    lemma_value_end_at(s, p.len() + 1int, h.len() as int);
    lemma_redact_suffix(h, w, 0);
}

proof fn lemma_redact_keeps_rest(s: Seq<char>, i: int)
    requires
        0 <= i <= s.len(),
        forall|j: int| 0 <= j < s.len() && #[trigger] s[j] == '/' ==> j > 0 && may_precede_kept_slash(s[j - 1]),
    ensures
        redact_paths_from(s, i) == s.subrange(i, s.len() as int),
    decreases s.len() - i,
{
    if i < s.len() {
        lemma_redact_keeps_rest(s, i + 1);
        assert(s.subrange(i, s.len() as int) =~= seq![s[i]] + s.subrange(i + 1, s.len() as int));
    } else {
        assert(s.subrange(i, s.len() as int) =~= Seq::<char>::empty());
    }
}

/// Text in which no `/` stands at the start or just after white space, a comma,
/// `=`, `:` or `(` holds no absolute path and is left unchanged.
pub proof fn lemma_text_without_paths_unchanged(s: Seq<char>)
    requires
        forall|j: int| 0 <= j < s.len() && #[trigger] s[j] == '/' ==> j > 0 && may_precede_kept_slash(s[j - 1]),
    ensures
        redact_paths(s) == s,
{
    lemma_redact_keeps_rest(s, 0);
    assert(s.subrange(0, s.len() as int) =~= s);
}

/// A `/` after white space or a comma opens a path: the slash and the run up to
/// the next comma or white space become `<path>`, whatever comes before or after.
pub proof fn lemma_path_after_separator(u: Seq<char>, q: Seq<char>, w: Seq<char>)
    requires
        u.len() == 0 || is_ws(u.last()) || u.last() == ',',
        forall|m: int| 0 <= m < q.len() ==> !is_ws(#[trigger] q[m]) && q[m] != ',',
        w.len() == 0 || is_ws(w[0]) || w[0] == ',',
    ensures
        redact_paths(u + seq!['/'] + q + w) == redact_paths(u) + "<path>"@ + redact_paths(w),
{
    let s = u + seq!['/'] + q + w;
    let b = seq!['/'] + q + w;
    assert(s =~= u + b);
    lemma_redact_prefix(u, b, 0);
    lemma_path_run(u, q, w);
    assert(s[u.len() as int] == '/');
    if u.len() > 0 {
        assert(s[u.len() - 1] == u.last());
    }
    assert(redact_paths_from(s, u.len() as int) == "<path>"@ + redact_paths(w));
}

/// A `/` right after `=`, `:`, `(`, a comma or white space opens a path, which
/// runs to the next comma or white space and becomes `<path>`; text before it
/// without slashes is kept as it stands.
pub proof fn lemma_path_after_mark(u: Seq<char>, c: char, q: Seq<char>, w: Seq<char>)
    requires
        forall|m: int| 0 <= m < u.len() ==> #[trigger] u[m] != '/',
        is_ws(c) || c == ',' || c == '=' || c == ':' || c == '(',
        forall|m: int| 0 <= m < q.len() ==> !is_ws(#[trigger] q[m]) && q[m] != ',',
        w.len() == 0 || is_ws(w[0]) || w[0] == ',',
    ensures
        redact_paths(u + seq![c, '/'] + q + w) == u + seq![c] + "<path>"@ + redact_paths(w),
{
    let p = u + seq![c];
    let s = u + seq![c, '/'] + q + w;
    assert(s =~= p + seq!['/'] + q + w);
    assert(c != '/');
    assert forall|m: int| 0 <= m < p.len() implies #[trigger] s[m] != '/' by {
        if m < u.len() {
            assert(s[m] == u[m]);
        } else {
            assert(s[m] == c);
        }
    }
    lemma_redact_plain(s, 0, p.len() as int);
    assert(s.subrange(0, p.len() as int) =~= p);
    lemma_path_run(p, q, w);
    assert(s[p.len() as int] == '/');
    assert(s[p.len() - 1] == c);
    assert(redact_paths_from(s, p.len() as int) == "<path>"@ + redact_paths(w));
}

/// Session ids and absolute paths hidden.
pub open spec fn redacted(detail: Seq<char>) -> Seq<char> {
    redact_paths(redact_kv(detail, "session_id="@))
}

/// The detail sent for a step at the given level, redacted on request.
pub open spec fn step_detail(stage: Seq<char>, detail: Seq<char>, level: ContextTraceLevel, redact: bool) -> Seq<char> {
    let d = match level {
        ContextTraceLevel::Basic => simplified(stage, detail),
        ContextTraceLevel::Verbose => detail,
    };
    if redact {
        redacted(d)
    } else {
        d
    }
}


/// The value of `key` in the first comma-separated part (after trimming) that
/// starts with `key`.
pub fn extract_key_value(detail: &str, key: &str) -> (r: Option<String>)
    ensures
        match r {
            Some(v) => key_value(detail@, key@) == Some(v@),
            None => key_value(detail@, key@) is None,
        },
{
    let d = chars_of(detail);
    let k = chars_of(key);
    let parts = split_chars(d.as_slice(), ',');
    let ghost ps = split_on(d@, ',');
    let mut i: usize = 0;
    while i < parts.len()
        invariant
            parts@.len() == ps.len(),
            forall|j: int| 0 <= j < parts@.len() ==> (#[trigger] parts@[j])@ == ps[j],
            ps == split_on(detail@, ','),
            k@ == key@,
            i <= parts@.len(),
            key_value_from(ps, key@, i as int) == key_value(detail@, key@),
        decreases parts@.len() - i,
    {
        let t = trim_chars(parts[i].as_slice());
        if starts_with(t.as_slice(), k.as_slice()) {
            let v = slice_range(t.as_slice(), k.len(), t.len());
            proof {
                assert(v@ =~= t@.skip(key@.len() as int));
            }
            return Some(string_from(v.as_slice()));
        }
        i = i + 1;
    }
    None
}

fn value_or_question(v: Option<String>) -> (r: String)
    ensures
        r@ == or_question(match v {
            Some(x) => Some(x@),
            None => None,
        }),
{
    match v {
        Some(x) => x,
        None => to_owned_string("?"),
    }
}

/// The short form of a trace step's detail, chosen by its stage.
pub fn simplify_trace_detail(stage: &str, detail: &str) -> (r: String)
    ensures
        r@ == simplified(stage@, detail@),
{
    if str_eq(stage, "session") {
        to_owned_string("session initialized")
    } else if str_eq(stage, "conversation_input") {
        match extract_key_value(detail, "messages=") {
            Some(count) => concat_str("messages=", count.as_str()),
            None => to_owned_string("conversation captured"),
        }
    } else if str_eq(stage, "conversation_fixed") {
        let messages = value_or_question(extract_key_value(detail, "messages="));
        let issues = value_or_question(extract_key_value(detail, "issues="));
        let mut r = concat_str("messages=", messages.as_str());
        r.append(", issues=");
        r.append(issues.as_str());
        r
    } else if str_eq(stage, "tools_ready") {
        let tools = value_or_question(extract_key_value(detail, "tools="));
        let shim = value_or_question(extract_key_value(detail, "toolshim_tools="));
        let mut r = concat_str("tools=", tools.as_str());
        r.append(", toolshim_tools=");
        r.append(shim.as_str());
        r
    } else if str_eq(stage, "mode") {
        to_owned_string(detail)
    } else {
        to_owned_string("step completed")
    }
}

fn ends_value_char(c: char) -> (r: bool)
    ensures
        r == ends_value(c),
{
    c == ',' || is_whitespace(c)
}

/// Index of the first comma or white space at or after `j`.
fn find_value_end(s: &[char], j: usize) -> (e: usize)
    requires
        j <= s@.len(),
    ensures
        e as int == value_end(s@, j as int),
        j <= e <= s@.len(),
{
    let mut e = j;
    while e < s.len() && !ends_value_char(s[e])
        invariant
            j <= e <= s@.len(),
            value_end(s@, e as int) == value_end(s@, j as int),
        decreases s@.len() - e,
    {
        e = e + 1;
    }
    e
}

/// Replaces the value written after each occurrence of `key` (up to the next
/// comma or white space) with `<redacted>`; everything else is kept.
pub fn redact_key_value(input: &str, key: &str) -> (r: String)
    ensures
        r@ == redact_kv(input@, key@),
{
    let s = chars_of(input);
    let k = chars_of(key);
    let mut out: Vec<char> = Vec::new();
    let mut cursor: usize = 0;
    let ghost full = redact_kv(s@, k@);
    while cursor < s.len()
        invariant
            cursor <= s@.len(),
            full == redact_kv(s@, k@),
            out@ + redact_kv_from(s@, k@, cursor as int) == full,
        decreases s@.len() - cursor,
    {
        if k.len() > 0 && matches_at(s.as_slice(), k.as_slice(), cursor) {
            let e = find_value_end(s.as_slice(), cursor + k.len());
            let ghost prev = out@;
            out.extend_from_slice(k.as_slice());
            let tag = chars_of("<redacted>");
            out.extend_from_slice(tag.as_slice());
            proof {
                assert(redact_kv_from(s@, k@, cursor as int) == k@ + "<redacted>"@ + redact_kv_from(s@, k@, e as int));
                assert(out@ =~= prev + k@ + "<redacted>"@);
                assert(prev + (k@ + "<redacted>"@ + redact_kv_from(s@, k@, e as int)) =~= out@ + redact_kv_from(s@, k@, e as int));
            }
            cursor = e;
        } else {
            let ghost prev = out@;
            out.push(s[cursor]);
            proof {
                assert(prev + (seq![s@[cursor as int]] + redact_kv_from(s@, k@, cursor + 1)) =~= out@ + redact_kv_from(s@, k@, cursor + 1));
            }
            cursor = cursor + 1;
        }
    }
    proof {
        assert(out@ + redact_kv_from(s@, k@, cursor as int) =~= out@);
    }
    string_from(out.as_slice())
}

fn path_boundary_char(c: char) -> (r: bool)
    ensures
        r == path_boundary(c),
{
    is_whitespace(c) || c == ',' || c == '=' || c == ':' || c == '('
}

/// Replaces each absolute Unix path (a `/` at the start or after white space,
/// `,`, `=`, `:` or `(`, up to the next comma or white space) with `<path>`.
pub fn redact_unix_paths(input: &str) -> (r: String)
    ensures
        r@ == redact_paths(input@),
{
    let s = chars_of(input);
    let mut out: Vec<char> = Vec::new();
    let mut index: usize = 0;
    let ghost full = redact_paths(s@);
    while index < s.len()
        invariant
            index <= s@.len(),
            full == redact_paths(s@),
            out@ + redact_paths_from(s@, index as int) == full,
        decreases s@.len() - index,
    {
        let current = s[index];
        let is_path_start = current == '/' && (index == 0 || path_boundary_char(s[index - 1]));
        if is_path_start {
            let e = find_value_end(s.as_slice(), index + 1);
            let ghost prev = out@;
            let tag = chars_of("<path>");
            out.extend_from_slice(tag.as_slice());
            proof {
                assert(prev + ("<path>"@ + redact_paths_from(s@, e as int)) =~= out@ + redact_paths_from(s@, e as int));
            }
            index = e;
        } else {
            let ghost prev = out@;
            out.push(current);
            proof {
                assert(prev + (seq![current] + redact_paths_from(s@, index + 1)) =~= out@ + redact_paths_from(s@, index + 1));
            }
            index = index + 1;
        }
    }
    proof {
        assert(out@ + redact_paths_from(s@, index as int) =~= out@);
    }
    string_from(out.as_slice())
}

/// Hides session ids, then absolute paths.
pub fn redact_trace_detail(detail: &str) -> (r: String)
    ensures
        r@ == redacted(detail@),
{
    let with_session_redacted = redact_key_value(detail, "session_id=");
    redact_unix_paths(with_session_redacted.as_str())
}

/// The steps as sent to a client: same stages, details simplified (basic level)
/// or kept (verbose level), then redacted when asked.
pub fn transform_context_trace_steps(
    steps: Vec<ContextTraceStep>,
    level: ContextTraceLevel,
    redact: bool,
) -> (r: Vec<ContextTraceStepResponse>)
    ensures
        r@.len() == steps@.len(),
        forall|i: int|
            0 <= i < r@.len() ==> {
                &&& (#[trigger] r@[i]).stage@ == steps@[i].stage@
                &&& r@[i].detail@ == step_detail(steps@[i].stage@, steps@[i].detail@, level, redact)
            },
{
    let mut out: Vec<ContextTraceStepResponse> = Vec::new();
    let mut i: usize = 0;
    while i < steps.len()
        invariant
            i <= steps@.len(),
            out@.len() == i,
            forall|j: int|
                0 <= j < i ==> {
                    &&& (#[trigger] out@[j]).stage@ == steps@[j].stage@
                    &&& out@[j].detail@ == step_detail(steps@[j].stage@, steps@[j].detail@, level, redact)
                },
        decreases steps@.len() - i,
    {
        let step = &steps[i];
        let mut detail = match level {
            ContextTraceLevel::Basic => simplify_trace_detail(step.stage.as_str(), step.detail.as_str()),
            ContextTraceLevel::Verbose => step.detail.clone(),
        };
        if redact {
            detail = redact_trace_detail(detail.as_str());
        }
        out.push(ContextTraceStepResponse { stage: step.stage.clone(), detail });
        i = i + 1;
    }
    out
}

} // verus!
