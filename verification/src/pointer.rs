//! JSON Pointer paths into a data model: reading the value at a path, and
//! setting one while creating the containers on the way.

use vstd::prelude::*;
use crate::json::{JsonValue, JsonView, json_view, json_views, entry_views, entry_value, lemma_array_view, lemma_object_view, digits_value, all_digits};
use crate::text::{chars_of, string_from, split_on, split_chars, eq_chars};

verus! {

/// Why a JSON Pointer could not be used.
#[derive(Debug, Clone, PartialEq, Eq)]
pub enum JsonPointerError {
    /// The path is malformed, or cannot be followed
    InvalidFormat(String),
    /// Nothing is at the path
    PathNotFound(String),
    /// An array index is malformed
    InvalidArrayIndex(String),
}

impl JsonPointerError {
    /// The error as text.
    pub fn message(&self) -> (r: String)
        ensures
            r@ == match self {
                JsonPointerError::InvalidFormat(m) => "无效的 JSON Pointer 格式: "@ + m@,
                JsonPointerError::PathNotFound(p) => "路径不存在: "@ + p@,
                JsonPointerError::InvalidArrayIndex(i) => "无效的数组索引: "@ + i@,
            },
    {
        match self {
            JsonPointerError::InvalidFormat(m) => {
                let mut r = String::from_str("无效的 JSON Pointer 格式: ");
                r.append(m.as_str());
                r
            },
            JsonPointerError::PathNotFound(p) => {
                let mut r = String::from_str("路径不存在: ");
                r.append(p.as_str());
                r
            },
            JsonPointerError::InvalidArrayIndex(i) => {
                let mut r = String::from_str("无效的数组索引: ");
                r.append(i.as_str());
                r
            },
        }
    }
}

/// The value an object's entries hold under `key` (the last entry with it).
pub open spec fn view_entry(es: Seq<(Seq<char>, JsonView)>, key: Seq<char>) -> Option<JsonView>
    decreases es.len(),
{
    if es.len() == 0 {
        None
    } else if es.last().0 == key {
        Some(es.last().1)
    } else {
        view_entry(es.drop_last(), key)
    }
}

/// `s` with every `pat` replaced by `rep`, left to right (`str::replace`).
pub open spec fn replace_all(s: Seq<char>, pat: Seq<char>, rep: Seq<char>) -> Seq<char>
    decreases s.len(),
{
    if s.len() == 0 || pat.len() == 0 {
        s
    } else if s.len() >= pat.len() && s.take(pat.len() as int) == pat {
        rep + replace_all(s.skip(pat.len() as int), pat, rep)
    } else {
        seq![s[0]] + replace_all(s.skip(1), pat, rep)
    }
}

/// A reference token with its escapes undone: `~1` is `/`, then `~0` is `~`.
pub open spec fn unescape_token(t: Seq<char>) -> Seq<char> {
    replace_all(replace_all(t, "~1"@, "/"@), "~0"@, "~"@)
}

/// An array index as a pointer writes it: digits without a sign and without
/// a leading zero (but `0` itself), at most `usize::MAX`.
pub open spec fn parse_index(t: Seq<char>) -> Option<nat> {
    if t.len() == 0 || t[0] == '+' || (t[0] == '0' && t.len() != 1) || !all_digits(t) || digits_value(t) > usize::MAX {
        None
    } else {
        Some(digits_value(t))
    }
}

/// An unsigned integer as `usize::from_str` reads it: digits after an
/// optional `+`, at most `usize::MAX`.
pub open spec fn parse_usize(t: Seq<char>) -> Option<nat> {
    let d = if t.len() > 0 && t[0] == '+' { t.skip(1) } else { t };
    if d.len() == 0 || !all_digits(d) || digits_value(d) > usize::MAX {
        None
    } else {
        Some(digits_value(d))
    }
}

/// One step down a value: an object's member, or an array's element.
pub open spec fn step(v: JsonView, token: Seq<char>) -> Option<JsonView> {
    match v {
        JsonView::Object(es) => view_entry(es, token),
        JsonView::Array(items) => match parse_index(token) {
            Some(i) => if i < items.len() {
                Some(items[i as int])
            } else {
                None
            },
            None => None,
        },
        _ => None,
    }
}

/// The value reached by following the tokens from `v`.
pub open spec fn follow(v: JsonView, tokens: Seq<Seq<char>>) -> Option<JsonView>
    decreases tokens.len(),
{
    if tokens.len() == 0 {
        Some(v)
    } else {
        match step(v, unescape_token(tokens[0])) {
            Some(c) => follow(c, tokens.skip(1)),
            None => None,
        }
    }
}

/// The value at a pointer (`Value::pointer`): the whole value for an empty
/// pointer, none for one that does not start with `/`.
pub open spec fn pointer_lookup(v: JsonView, p: Seq<char>) -> Option<JsonView> {
    if p.len() == 0 {
        Some(v)
    } else if p[0] != '/' {
        None
    } else {
        follow(v, split_on(p, '/').skip(1))
    }
}

/// The value at a path of the data model: the whole model for an empty path or
/// `/`; a path without its leading `/` is read as if it had one.
pub open spec fn resolved(v: JsonView, path: Seq<char>) -> Option<JsonView> {
    if path.len() == 0 || path == "/"@ {
        Some(v)
    } else if path[0] == '/' {
        pointer_lookup(v, path)
    } else {
        pointer_lookup(v, "/"@ + path)
    }
}

proof fn lemma_entry_lookup(es: Seq<(String, JsonValue)>, key: Seq<char>, n: nat)
    requires
        n <= es.len(),
    ensures
        view_entry(entry_views(es, n), key) == match entry_value(es.take(n as int), key) {
            Some(v) => Some(json_view(v)),
            None => None,
        },
    decreases n,
{
    if n > 0 {
        lemma_entry_lookup(es, key, (n - 1) as nat);
        let ev = entry_views(es, n);
        assert(ev.drop_last() =~= entry_views(es, (n - 1) as nat));
        assert(ev.last() == (es[n - 1].0@, json_view(es[n - 1].1)));
        assert(es.take(n as int).drop_last() =~= es.take(n - 1));
        assert(es.take(n as int).last() == es[n - 1]);
    } else {
        assert(es.take(0) =~= Seq::<(String, JsonValue)>::empty());
    }
}

/// The member of an object, seen through the plain form.
proof fn lemma_member_view(v: JsonValue, key: Seq<char>)
    requires
        v is Object,
    ensures
        step(json_view(v), key) == match crate::json::member(v, key) {
            Some(x) => Some(json_view(x)),
            None => None,
        },
{
    let es = v->Object_0@;
    lemma_entry_lookup(es, key, es.len());
    assert(es.take(es.len() as int) =~= es);
}

pub fn replace_all_chars(s: &[char], pat: &[char], rep: &[char]) -> (r: Vec<char>)
    ensures
        r@ == replace_all(s@, pat@, rep@),
{
    let mut out: Vec<char> = Vec::new();
    let mut i: usize = 0;
    if pat.len() == 0 {
        let mut all: Vec<char> = Vec::new();
        all.extend_from_slice(s);
        return all;
    }
    proof {
        assert(s@.skip(0) =~= s@);
        assert(out@ + replace_all(s@.skip(0), pat@, rep@) =~= replace_all(s@, pat@, rep@));
    }
    while i < s.len()
        invariant
            i <= s@.len(),
            pat@.len() > 0,
            out@ + replace_all(s@.skip(i as int), pat@, rep@) == replace_all(s@, pat@, rep@),
        decreases s@.len() - i,
    {
        let ghost rest = s@.skip(i as int);
        if crate::text::matches_at(s, pat, i) {
            proof {
                assert(rest.take(pat@.len() as int) =~= s@.subrange(i as int, i + pat@.len()));
                assert(rest.skip(pat@.len() as int) =~= s@.skip(i + pat@.len()));
                assert(out@ + rep@ + replace_all(s@.skip(i + pat@.len()), pat@, rep@) =~= out@ + (rep@ + replace_all(
                    rest.skip(pat@.len() as int),
                    pat@,
                    rep@,
                )));
            }
            out.extend_from_slice(rep);
            i = i + pat.len();
        } else {
            proof {
                if rest.len() >= pat@.len() {
                    assert(rest.take(pat@.len() as int) =~= s@.subrange(i as int, i + pat@.len()));
                }
                assert(rest.skip(1) =~= s@.skip(i + 1));
                assert(out@.push(s@[i as int]) + replace_all(s@.skip(i + 1), pat@, rep@) =~= out@ + (seq![rest[0]]
                    + replace_all(rest.skip(1), pat@, rep@)));
            }
            out.push(s[i]);
            i = i + 1;
        }
    }
    proof {
        assert(s@.skip(i as int) =~= Seq::<char>::empty());
        assert(out@ + Seq::<char>::empty() =~= out@);
    }
    out
}

fn unescape(t: &[char]) -> (r: Vec<char>)
    ensures
        r@ == unescape_token(t@),
{
    let a = chars_of("~1");
    let b = chars_of("/");
    let c = chars_of("~0");
    let d = chars_of("~");
    let x = replace_all_chars(t, a.as_slice(), b.as_slice());
    replace_all_chars(x.as_slice(), c.as_slice(), d.as_slice())
}

fn digits_to_usize(t: &[char]) -> (r: Option<usize>)
    ensures
        match r {
            Some(n) => t@.len() > 0 && all_digits(t@) && digits_value(t@) == n,
            None => !(t@.len() > 0 && all_digits(t@) && digits_value(t@) <= usize::MAX),
        },
{
    if t.len() == 0 {
        return None;
    }
    let mut s = String::new();
    let mut i: usize = 0;
    while i < t.len()
        invariant
            i <= t@.len(),
            s@ == t@.take(i as int),
        decreases t@.len() - i,
    {
        crate::text::push_char(&mut s, t[i]);
        proof {
            assert(t@.take(i + 1) =~= t@.take(i as int).push(t@[i as int]));
        }
        i = i + 1;
    }
    proof {
        assert(t@.take(t@.len() as int) =~= t@);
    }
    let n = JsonValue::Number(s);
    match n.as_u64() {
        Some(v) => {
            if v <= usize::MAX as u64 {
                Some(v as usize)
            } else {
                None
            }
        },
        None => None,
    }
}

fn parse_index_of(t: &[char]) -> (r: Option<usize>)
    ensures
        match r {
            Some(n) => parse_index(t@) == Some(n as nat),
            None => parse_index(t@) is None,
        },
{
    if t.len() == 0 || t[0] == '+' || (t[0] == '0' && t.len() != 1) {
        return None;
    }
    digits_to_usize(t)
}

fn parse_usize_of(t: &[char]) -> (r: Option<usize>)
    ensures
        match r {
            Some(n) => parse_usize(t@) == Some(n as nat),
            None => parse_usize(t@) is None,
        },
{
    if t.len() > 0 && t[0] == '+' {
        let d = crate::text::slice_range(t, 1, t.len());
        proof {
            assert(d@ =~= t@.skip(1));
        }
        digits_to_usize(d.as_slice())
    } else {
        digits_to_usize(t)
    }
}

/// The value at a path of the data model (see `resolved`); refused with the
/// path when nothing is there.
pub fn resolve_pointer<'a>(data: &'a JsonValue, pointer: &str) -> (r: Result<&'a JsonValue, JsonPointerError>)
    ensures
        match resolved(json_view(*data), pointer@) {
            Some(x) => r matches Ok(v) && json_view(*v) == x,
            None => r matches Err(JsonPointerError::PathNotFound(p)) && p@ == pointer@,
        },
{
    let pv = chars_of(pointer);
    let slash = chars_of("/");
    if pv.len() == 0 || eq_chars(pv.as_slice(), slash.as_slice()) {
        return Ok(data);
    }
    let mut normalized: Vec<char> = Vec::new();
    if pv[0] != '/' {
        normalized.push('/');
    }
    normalized.extend_from_slice(pv.as_slice());
    proof {
        reveal_strlit("/");
        if pointer@[0] != '/' {
            assert(normalized@ =~= "/"@ + pointer@);
        } else {
            assert(normalized@ =~= pointer@);
        }
    }
    let parts = split_chars(normalized.as_slice(), '/');
    let ghost tokens = split_on(normalized@, '/').skip(1);
    let mut current: &JsonValue = data;
    let mut i: usize = 1;
    proof {
        crate::text::lemma_split_nonempty(normalized@, '/');
        assert(split_on(normalized@, '/').skip(1) =~= split_on(normalized@, '/').skip(1 as int));
    }
    while i < parts.len()
        invariant
            1 <= i <= parts@.len(),
            parts@.len() == split_on(normalized@, '/').len(),
            forall|j: int| 0 <= j < parts@.len() ==> (#[trigger] parts@[j])@ == split_on(normalized@, '/')[j],
            tokens == split_on(normalized@, '/').skip(1),
            follow(json_view(*data), tokens) == follow(json_view(*current), split_on(normalized@, '/').skip(i as int)),
            resolved(json_view(*data), pointer@) == follow(json_view(*data), tokens),
        decreases parts@.len() - i,
    {
        let ghost rest = split_on(normalized@, '/').skip(i as int);
        proof {
            assert(rest[0] == parts@[i as int]@);
            assert(rest.skip(1) =~= split_on(normalized@, '/').skip(i + 1));
        }
        let tok = unescape(parts[i].as_slice());
        let next: Option<&JsonValue> = match current {
            JsonValue::Object(_) => {
                let key = string_from(tok.as_slice());
                proof {
                    lemma_member_view(*current, tok@);
                }
                current.get(key.as_str())
            },
            JsonValue::Array(items) => {
                proof {
                    lemma_array_view(items@);
                }
                match parse_index_of(tok.as_slice()) {
                    Some(idx) => if idx < items.len() {
                        Some(&items[idx])
                    } else {
                        None
                    },
                    None => None,
                }
            },
            _ => None,
        };
        match next {
            Some(c) => {
                current = c;
            },
            None => {
                return Err(JsonPointerError::PathNotFound(String::from_str(pointer)));
            },
        }
        i = i + 1;
    }
    proof {
        assert(split_on(normalized@, '/').skip(i as int) =~= Seq::<Seq<char>>::empty());
    }
    Ok(current)
}

/// `v` with the value that `tokens` lead to (see `follow`) replaced by `sub`;
/// `v` itself where they lead nowhere.
pub open spec fn replace_view(v: JsonView, tokens: Seq<Seq<char>>, sub: JsonView) -> JsonView
    decreases tokens.len(),
{
    if tokens.len() == 0 {
        sub
    } else {
        let t = unescape_token(tokens[0]);
        match v {
            JsonView::Object(es) => match last_key_index(es, t) {
                Some(i) => JsonView::Object(es.update(i, (es[i].0, replace_view(es[i].1, tokens.skip(1), sub)))),
                None => v,
            },
            JsonView::Array(items) => match parse_index(t) {
                Some(i) => if i < items.len() {
                    JsonView::Array(items.update(i as int, replace_view(items[i as int], tokens.skip(1), sub)))
                } else {
                    v
                },
                None => v,
            },
            _ => v,
        }
    }
}

/// The steps of a path of the data model: none for an empty path or `/`;
/// otherwise the parts after the first `/` of the path, read with one leading
/// `/` (see `resolved`).
pub open spec fn path_tokens(path: Seq<char>) -> Seq<Seq<char>> {
    if path.len() == 0 || path == "/"@ {
        seq![]
    } else if path[0] == '/' {
        split_on(path, '/').skip(1)
    } else {
        split_on("/"@ + path, '/').skip(1)
    }
}

/// The plain form of an array's items after one of them changed.
proof fn lemma_item_replaced(items: Seq<JsonValue>, idx: int)
    requires
        0 <= idx < items.len(),
    ensures
        forall|f: Seq<JsonValue>|
            f.len() == items.len() && (forall|j: int| 0 <= j < items.len() && j != idx ==> f[j] == items[j])
                ==> #[trigger] json_views(f, f.len()) == json_views(items, items.len()).update(idx, json_view(f[idx])),
{
    assert forall|f: Seq<JsonValue>|
        f.len() == items.len() && (forall|j: int| 0 <= j < items.len() && j != idx ==> f[j] == items[j])
            implies #[trigger] json_views(f, f.len()) == json_views(items, items.len()).update(idx, json_view(f[idx])) by {
        lemma_array_view(items);
        lemma_array_view(f);
        assert(json_views(f, f.len()) =~= json_views(items, items.len()).update(idx, json_view(f[idx])));
    }
}

/// The plain form of an object's entries after the value of one of them changed.
proof fn lemma_entry_replaced(es: Seq<(String, JsonValue)>, idx: int)
    requires
        0 <= idx < es.len(),
    ensures
        forall|f: Seq<(String, JsonValue)>|
            f.len() == es.len() && f[idx].0 == es[idx].0 && (forall|j: int| 0 <= j < es.len() && j != idx ==> f[j] == es[j])
                ==> #[trigger] entry_views(f, f.len()) == entry_views(es, es.len()).update(idx, (es[idx].0@, json_view(f[idx].1))),
{
    assert forall|f: Seq<(String, JsonValue)>|
        f.len() == es.len() && f[idx].0 == es[idx].0 && (forall|j: int| 0 <= j < es.len() && j != idx ==> f[j] == es[j])
            implies #[trigger] entry_views(f, f.len()) == entry_views(es, es.len()).update(idx, (es[idx].0@, json_view(f[idx].1))) by {
        lemma_object_view(es);
        lemma_object_view(f);
        assert(entry_views(f, f.len()) =~= entry_views(es, es.len()).update(idx, (es[idx].0@, json_view(f[idx].1))));
    }
}

/// The plain form of an array or an object, one level down.
proof fn lemma_container_views()
    ensures
        forall|v: JsonValue| v is Array ==> #[trigger] json_view(v) == JsonView::Array(json_views(v->Array_0@, v->Array_0@.len())),
        forall|v: JsonValue| v is Object ==> #[trigger] json_view(v) == JsonView::Object(entry_views(v->Object_0@, v->Object_0@.len())),
{
}

/// The value below `cur` that `parts[i..]` lead to, as a mutable reference;
/// none when they lead nowhere.
fn locate_mut<'a>(cur: &'a mut JsonValue, parts: &Vec<Vec<char>>, i: usize) -> (r: Option<&'a mut JsonValue>)
    requires
        i <= parts@.len(),
    ensures
        match r {
            Some(m) => follow(json_view(*old(cur)), part_views(parts@).skip(i as int)) == Some(json_view(*m))
                && json_view(*final(cur)) == replace_view(json_view(*old(cur)), part_views(parts@).skip(i as int), json_view(*final(m))),
            None => follow(json_view(*old(cur)), part_views(parts@).skip(i as int)) is None
                && json_view(*final(cur)) == json_view(*old(cur)),
        },
    decreases parts@.len() - i,
{
    let ghost pv = part_views(parts@);
    if i >= parts.len() {
        proof {
            assert(pv.skip(i as int) =~= Seq::<Seq<char>>::empty());
        }
        return Some(cur);
    }
    proof {
        assert(pv.skip(i as int)[0] == parts@[i as int]@);
        assert(pv.skip(i as int).skip(1) =~= pv.skip(i + 1));
    }
    let tok = unescape(parts[i].as_slice());
    proof {
        lemma_container_views();
    }
    match cur {
        JsonValue::Array(items) => {
            let ghost before = items@;
            proof {
                lemma_array_view(before);
            }
            match parse_index_of(tok.as_slice()) {
                Some(idx) => {
                    if idx < items.len() {
                        proof {
                            lemma_item_replaced(before, idx as int);
                            let jv = json_views(before, before.len());
                            assert(jv.update(idx as int, jv[idx as int]) =~= jv);
                        }
                        let c = &mut items[idx];
                        locate_mut(c, parts, i + 1)
                    } else {
                        None
                    }
                },
                None => None,
            }
        },
        JsonValue::Object(es) => {
            let ghost before = es@;
            let ghost ov = entry_views(before, before.len() as nat);
            proof {
                lemma_object_view(before);
                lemma_last_key_entry(ov, tok@);
            }
            match last_key_position(es, tok.as_slice()) {
                Some(j) => {
                    proof {
                        lemma_entry_replaced(before, j as int);
                        assert(ov.update(j as int, (before[j as int].0@, ov[j as int].1)) =~= ov);
                    }
                    let c = &mut es[j].1;
                    locate_mut(c, parts, i + 1)
                },
                None => None,
            }
        },
        _ => None,
    }
}

/// The value at a path of the data model (see `resolved`), to be changed in
/// place; refused with the path when nothing is there. What is written
/// through the reference lands at that place of the data and nowhere else (see
/// `replace_view`); a refusal leaves the data as it was.
pub fn resolve_pointer_mut<'a>(data: &'a mut JsonValue, pointer: &str) -> (r: Result<&'a mut JsonValue, JsonPointerError>)
    ensures
        match r {
            Ok(m) => resolved(json_view(*old(data)), pointer@) == Some(json_view(*m))
                && json_view(*final(data)) == replace_view(json_view(*old(data)), path_tokens(pointer@), json_view(*final(m))),
            Err(e) => resolved(json_view(*old(data)), pointer@) is None
                && (e matches JsonPointerError::PathNotFound(p) && p@ == pointer@)
                && json_view(*final(data)) == json_view(*old(data)),
        },
{
    let pv = chars_of(pointer);
    let slash = chars_of("/");
    proof {
        reveal_strlit("/");
    }
    if pv.len() == 0 || eq_chars(pv.as_slice(), slash.as_slice()) {
        return Ok(data);
    }
    let mut normalized: Vec<char> = Vec::new();
    if pv[0] != '/' {
        normalized.push('/');
    }
    normalized.extend_from_slice(pv.as_slice());
    proof {
        if pointer@[0] != '/' {
            assert(normalized@ =~= "/"@ + pointer@);
        } else {
            assert(normalized@ =~= pointer@);
        }
    }
    let parts = split_chars(normalized.as_slice(), '/');
    proof {
        crate::text::lemma_split_nonempty(normalized@, '/');
        assert(part_views(parts@) =~= split_on(normalized@, '/'));
        assert(part_views(parts@).skip(1) == path_tokens(pointer@));
    }
    match locate_mut(data, &parts, 1) {
        Some(m) => Ok(m),
        None => Err(JsonPointerError::PathNotFound(String::from_str(pointer))),
    }
}

/// `items` extended with nulls so that index `idx` exists.
pub open spec fn padded(items: Seq<JsonView>, idx: nat) -> Seq<JsonView> {
    if items.len() > idx {
        items
    } else {
        items + Seq::new((idx + 1 - items.len()) as nat, |k: int| JsonView::Null)
    }
}

/// The index of the last entry with key `k`.
pub open spec fn last_key_index(es: Seq<(Seq<char>, JsonView)>, k: Seq<char>) -> Option<int>
    decreases es.len(),
{
    if es.len() == 0 {
        None
    } else if es.last().0 == k {
        Some(es.len() - 1)
    } else {
        last_key_index(es.drop_last(), k)
    }
}

/// The entries with `k` set to `v` (`Map::insert`): its entry replaced, or a
/// new one at the end.
pub open spec fn view_insert(es: Seq<(Seq<char>, JsonView)>, k: Seq<char>, v: JsonView) -> Seq<(Seq<char>, JsonView)> {
    match last_key_index(es, k) {
        Some(i) => es.update(i, (k, v)),
        None => es.push((k, v)),
    }
}

/// The container made for a missing step: an array when the next part is a
/// number, else an object.
pub open spec fn container_for(next: Seq<char>) -> JsonView {
    if parse_usize(next) is Some {
        JsonView::Array(seq![])
    } else {
        JsonView::Object(seq![])
    }
}

pub const MSG_NOT_CONTAINER: &'static str = "父节点不是对象或数组";

/// The message for a part that cannot be followed.
pub open spec fn cannot_navigate(part: Seq<char>) -> Seq<char> {
    "无法在路径 "@ + part + " 处导航"@
}

/// Setting `value` at `parts[i..]` below `cur`: the new value of `cur`, and
/// the error met, if any (changes made before it stay). The last part sets an
/// array element (padding with nulls) or an object member; earlier parts step
/// into array elements or object members, creating the missing ones (and
/// replacing a null element) as arrays or objects by the kind of the next part.
pub open spec fn set_path(cur: JsonView, parts: Seq<Seq<char>>, i: nat, value: JsonView) -> (JsonView, Option<Seq<char>>)
    decreases parts.len() - i,
{
    if i >= parts.len() {
        (cur, None)
    } else {
        let part = parts[i as int];
        if i + 1 == parts.len() {
            match (parse_usize(part), cur) {
                (Some(k), JsonView::Array(items)) => (JsonView::Array(padded(items, k).update(k as int, value)), None),
                (_, JsonView::Object(es)) => (JsonView::Object(view_insert(es, part, value)), None),
                _ => (cur, Some(MSG_NOT_CONTAINER@)),
            }
        } else {
            let next = container_for(parts[i + 1 as int]);
            match (parse_usize(part), cur) {
                (Some(k), JsonView::Array(items)) => {
                    let p = padded(items, k);
                    let child = if p[k as int] is Null {
                        next
                    } else {
                        p[k as int]
                    };
                    let (nc, err) = set_path(child, parts, i + 1, value);
                    (JsonView::Array(p.update(k as int, nc)), err)
                },
                (_, JsonView::Object(es)) => {
                    let (child, es2) = match view_entry(es, part) {
                        Some(c) => (c, es),
                        None => (next, es.push((part, next))),
                    };
                    let (nc, err) = set_path(child, parts, i + 1, value);
                    (JsonView::Object(view_insert(es2, part, nc)), err)
                },
                _ => (cur, Some(cannot_navigate(part))),
            }
        }
    }
}

/// What setting `value` at a path does to the data model: the whole model is
/// replaced for an empty path or `/`; otherwise the path, without one leading
/// `/`, is split at each `/` (see `set_path`).
pub open spec fn set_at(v: JsonView, path: Seq<char>, value: JsonView) -> (JsonView, Option<Seq<char>>) {
    if path.len() == 0 || path == "/"@ {
        (value, None)
    } else {
        let rel = if path[0] == '/' { path.skip(1) } else { path };
        set_path(v, split_on(rel, '/'), 0, value)
    }
}

/// The texts of character rows.
pub open spec fn part_views(parts: Seq<Vec<char>>) -> Seq<Seq<char>> {
    parts.map_values(|w: Vec<char>| w@)
}

proof fn lemma_last_key_entry(es: Seq<(Seq<char>, JsonView)>, k: Seq<char>)
    ensures
        match last_key_index(es, k) {
            Some(i) => 0 <= i < es.len() && es[i].0 == k && view_entry(es, k) == Some(es[i].1),
            None => view_entry(es, k) is None,
        },
    decreases es.len(),
{
    if es.len() > 0 {
        lemma_last_key_entry(es.drop_last(), k);
    }
}

fn last_key_position(es: &Vec<(String, JsonValue)>, k: &[char]) -> (r: Option<usize>)
    ensures
        match r {
            Some(i) => last_key_index(entry_views(es@, es@.len() as nat), k@) == Some(i as int) && i < es@.len(),
            None => last_key_index(entry_views(es@, es@.len() as nat), k@) is None,
        },
{
    let ghost ev = entry_views(es@, es@.len() as nat);
    proof {
        lemma_object_view(es@);
        assert(ev.take(es@.len() as int) =~= ev);
    }
    let mut i = es.len();
    while i > 0
        invariant
            i <= es@.len() == ev.len(),
            ev == entry_views(es@, es@.len() as nat),
            forall|j: int| 0 <= j < es@.len() ==> (#[trigger] ev[j]).0 == es@[j].0@,
            last_key_index(ev.take(i as int), k@) == last_key_index(ev, k@),
        decreases i,
    {
        proof {
            assert(ev.take(i as int).drop_last() =~= ev.take(i - 1));
            assert(ev.take(i as int).last() == ev[i - 1]);
        }
        let c = chars_of(es[i - 1].0.as_str());
        if eq_chars(c.as_slice(), k) {
            return Some(i - 1);
        }
        i = i - 1;
    }
    None
}

fn container_value(next: &[char]) -> (r: JsonValue)
    ensures
        json_view(r) == container_for(next@),
{
    let r = if parse_usize_of(next).is_some() {
        JsonValue::Array(Vec::new())
    } else {
        JsonValue::Object(Vec::new())
    };
    proof {
        if r is Array {
            lemma_array_view(r->Array_0@);
            assert(json_views(r->Array_0@, r->Array_0@.len() as nat) =~= Seq::<JsonView>::empty());
        }
        if r is Object {
            lemma_object_view(r->Object_0@);
            assert(entry_views(r->Object_0@, r->Object_0@.len() as nat) =~= Seq::<(Seq<char>, JsonView)>::empty());
        }
    }
    r
}

fn pad_items(items: &mut Vec<JsonValue>, k: usize)
    ensures
        final(items)@.len() == if old(items)@.len() > k { old(items)@.len() } else { (k + 1) as nat },
        json_views(final(items)@, final(items)@.len() as nat) == padded(json_views(old(items)@, old(items)@.len() as nat), k as nat),
{
    let ghost before = items@;
    proof {
        lemma_array_view(before);
    }
    while items.len() <= k
        invariant
            items@.len() >= before.len(),
            items@.len() <= if before.len() > k { before.len() } else { (k + 1) as nat },
            forall|j: int| 0 <= j < before.len() ==> items@[j] == before[j],
            forall|j: int| before.len() <= j < items@.len() ==> items@[j] == JsonValue::Null,
        decreases k + 1 - items@.len(),
    {
        items.push(JsonValue::Null);
    }
    proof {
        lemma_array_view(items@);
        let ov = json_views(before, before.len() as nat);
        assert(json_views(items@, items@.len() as nat) =~= padded(ov, k as nat));
    }
}

fn set_in(cur: JsonValue, parts: &Vec<Vec<char>>, i: usize, value: JsonValue) -> (r: (JsonValue, Option<String>))
    requires
        i < parts@.len(),
    ensures
        (json_view(r.0), crate::ask::opt_chars(r.1)) == set_path(json_view(cur), part_views(parts@), i as nat, json_view(value)),
    decreases parts@.len() - i,
{
    let ghost pv = part_views(parts@);
    let n = parts.len();
    let part = &parts[i];
    let idx = parse_usize_of(part.as_slice());
    proof {
        assert(pv[i as int] == part@);
    }
    if i + 1 == n {
        match cur {
            JsonValue::Array(mut items) => {
                match idx {
                    Some(k) => {
                        pad_items(&mut items, k);
                        let ghost pd = json_views(items@, items@.len() as nat);
                        let ghost before = items@;
                        proof {
                            lemma_array_view(before);
                        }
                        let ghost vv = json_view(value);
                        items.set(k, value);
                        proof {
                            lemma_array_view(items@);
                            assert(json_views(items@, items@.len() as nat) =~= pd.update(k as int, vv));
                        }
                        (JsonValue::Array(items), None)
                    },
                    None => (JsonValue::Array(items), Some(String::from_str(MSG_NOT_CONTAINER))),
                }
            },
            JsonValue::Object(mut es) => {
                let ghost ov = entry_views(es@, es@.len() as nat);
                let ghost before = es@;
                proof {
                    lemma_object_view(before);
                }
                let key = string_from(part.as_slice());
                let ghost vv = json_view(value);
                match last_key_position(&es, part.as_slice()) {
                    Some(j) => {
                        es.set(j, (key, value));
                        proof {
                            lemma_object_view(es@);
                            assert(entry_views(es@, es@.len() as nat) =~= ov.update(j as int, (part@, vv)));
                        }
                    },
                    None => {
                        es.push((key, value));
                        proof {
                            lemma_object_view(es@);
                            assert(entry_views(es@, es@.len() as nat) =~= ov.push((part@, vv)));
                        }
                    },
                }
                (JsonValue::Object(es), None)
            },
            other => (other, Some(String::from_str(MSG_NOT_CONTAINER))),
        }
    } else {
        let next = &parts[i + 1];
        proof {
            assert(pv[i + 1] == next@);
        }
        match cur {
            JsonValue::Array(mut items) => {
                match idx {
                    Some(k) => {
                        pad_items(&mut items, k);
                        let ghost pd = json_views(items@, items@.len() as nat);
                        let ghost before = items@;
                        proof {
                            lemma_array_view(before);
                        }
                        let old_child = items.remove(k);
                        let child = match old_child {
                            JsonValue::Null => container_value(next.as_slice()),
                            c => c,
                        };
                        let (nc, err) = set_in(child, parts, i + 1, value);
                        items.insert(k, nc);
                        proof {
                            assert(items@ =~= before.update(k as int, nc));
                            lemma_array_view(items@);
                            assert(json_views(items@, items@.len() as nat) =~= pd.update(k as int, json_view(nc)));
                        }
                        (JsonValue::Array(items), err)
                    },
                    None => {
                        let mut msg = String::from_str("无法在路径 ");
                        msg.append(string_from(part.as_slice()).as_str());
                        msg.append(" 处导航");
                        (JsonValue::Array(items), Some(msg))
                    },
                }
            },
            JsonValue::Object(mut es) => {
                let key = string_from(part.as_slice());
                match last_key_position(&es, part.as_slice()) {
                    Some(j) => {
                        let ghost before = es@;
                        let ghost ov = entry_views(before, before.len() as nat);
                        proof {
                            lemma_object_view(before);
                            lemma_last_key_entry(ov, part@);
                        }
                        let (k0, child) = es.remove(j);
                        let (nc, err) = set_in(child, parts, i + 1, value);
                        es.insert(j, (k0, nc));
                        proof {
                            assert(es@ =~= before.update(j as int, (k0, nc)));
                            lemma_object_view(es@);
                            assert(entry_views(es@, es@.len() as nat) =~= ov.update(j as int, (part@, json_view(nc))));
                        }
                        (JsonValue::Object(es), err)
                    },
                    None => {
                        let ghost before = es@;
                        let ghost ov = entry_views(before, before.len() as nat);
                        proof {
                            lemma_object_view(before);
                            lemma_last_key_entry(ov, part@);
                        }
                        let child = container_value(next.as_slice());
                        let ghost cv = json_view(child);
                        let (nc, err) = set_in(child, parts, i + 1, value);
                        es.push((key, nc));
                        proof {
                            lemma_object_view(es@);
                            assert(entry_views(es@, es@.len() as nat) =~= ov.push((part@, json_view(nc))));
                            assert(last_key_index(ov.push((part@, cv)), part@) == Some(ov.len() as int));
                            assert(ov.push((part@, cv)).update(ov.len() as int, (part@, json_view(nc))) =~= ov.push((part@, json_view(nc))));
                        }
                        (JsonValue::Object(es), err)
                    },
                }
            },
            other => {
                let mut msg = String::from_str("无法在路径 ");
                msg.append(string_from(part.as_slice()).as_str());
                msg.append(" 处导航");
                (other, Some(msg))
            },
        }
    }
}

/// Sets `value` at a path of the data model, creating the arrays and objects
/// missing on the way (see `set_at`). Refused when a step meets a value that is
/// neither; changes made before that stay.
pub fn set_at_pointer(data: &mut JsonValue, pointer: &str, value: JsonValue) -> (r: Result<(), JsonPointerError>)
    ensures
        json_view(*final(data)) == set_at(json_view(*old(data)), pointer@, json_view(value)).0,
        match set_at(json_view(*old(data)), pointer@, json_view(value)).1 {
            None => r is Ok,
            Some(m) => r matches Err(JsonPointerError::InvalidFormat(t)) && t@ == m,
        },
{
    let pv = chars_of(pointer);
    let slash = chars_of("/");
    proof {
        reveal_strlit("/");
    }
    if pv.len() == 0 || eq_chars(pv.as_slice(), slash.as_slice()) {
        *data = value;
        return Ok(());
    }
    let rel = if pv[0] == '/' {
        crate::text::slice_range(pv.as_slice(), 1, pv.len())
    } else {
        pv
    };
    proof {
        if pointer@[0] == '/' {
            assert(rel@ =~= pointer@.skip(1));
        }
    }
    let parts = split_chars(rel.as_slice(), '/');
    proof {
        crate::text::lemma_split_nonempty(rel@, '/');
        assert(part_views(parts@) =~= split_on(rel@, '/'));
    }
    let mut cur = JsonValue::Null;
    std::mem::swap(&mut cur, data);
    let (nv, err) = set_in(cur, &parts, 0, value);
    *data = nv;
    match err {
        None => Ok(()),
        Some(m) => Err(JsonPointerError::InvalidFormat(m)),
    }
}

/// A part that reads the same way when set and when looked up: no `~`
/// escape, and a number written as an index is (no sign, no leading zero).
pub open spec fn plain_part(t: Seq<char>) -> bool {
    &&& forall|i: int| 0 <= i < t.len() ==> t[i] != '~'
    &&& parse_usize(t) is Some ==> parse_index(t) == parse_usize(t)
}

/// The path without its leading `/`.
pub open spec fn relative_path(path: Seq<char>) -> Seq<char> {
    if path.len() > 0 && path[0] == '/' {
        path.skip(1)
    } else {
        path
    }
}

/// Every part of the path is plain.
pub open spec fn plain_path(path: Seq<char>) -> bool {
    forall|j: int| 0 <= j < split_on(relative_path(path), '/').len() ==> plain_part(#[trigger] split_on(relative_path(path), '/')[j])
}

proof fn lemma_replace_absent(s: Seq<char>, pat: Seq<char>, rep: Seq<char>)
    requires
        pat.len() > 0,
        forall|i: int| 0 <= i < s.len() ==> s[i] != pat[0],
    ensures
        replace_all(s, pat, rep) == s,
    decreases s.len(),
{
    if s.len() > 0 {
        assert(!(s.len() >= pat.len() && s.take(pat.len() as int) == pat)) by {
            if s.len() >= pat.len() {
                assert(s.take(pat.len() as int)[0] == s[0]);
            }
        }
        lemma_replace_absent(s.skip(1), pat, rep);
        assert(seq![s[0]] + s.skip(1) =~= s);
    }
}

proof fn lemma_unescape_plain(t: Seq<char>)
    requires
        forall|i: int| 0 <= i < t.len() ==> t[i] != '~',
    ensures
        unescape_token(t) == t,
{
    reveal_strlit("~1");
    reveal_strlit("~0");
    assert("~1"@[0] == '~');
    assert("~0"@[0] == '~');
    lemma_replace_absent(t, "~1"@, "/"@);
    lemma_replace_absent(t, "~0"@, "~"@);
}

proof fn lemma_last_key_is_last(es: Seq<(Seq<char>, JsonView)>, k: Seq<char>, v: JsonView)
    ensures
        view_entry(view_insert(es, k, v), k) == Some(v),
    decreases es.len(),
{
    match last_key_index(es, k) {
        None => {
            assert(view_insert(es, k, v).last() == (k, v));
        },
        Some(i) => {
            lemma_last_key_entry(es, k);
            if i == es.len() - 1 {
                assert(es.update(i, (k, v)).last() == (k, v));
            } else {
                let t = es.update(i, (k, v));
                assert(es.last().0 != k);
                assert(last_key_index(es.drop_last(), k) == Some(i));
                lemma_last_key_is_last(es.drop_last(), k, v);
                assert(t.drop_last() =~= es.drop_last().update(i, (k, v)));
                assert(t.last() == es.last());
            }
        },
    }
}

proof fn lemma_split_two(q: Seq<char>)
    requires
        q.len() > 0,
        q[0] == '/',
    ensures
        split_on(q, '/').len() >= 2,
    decreases q.len(),
{
    if q.len() > 1 {
        lemma_split_two(q.drop_last());
    } else {
        assert(q.drop_last().len() == 0);
        assert(split_on(q.drop_last(), '/') == seq![Seq::<char>::empty()]);
    }
}

proof fn lemma_split_skip(p: Seq<char>)
    requires
        p.len() > 0,
        p[0] == '/',
    ensures
        split_on(p, '/').skip(1) == split_on(p.skip(1), '/'),
    decreases p.len(),
{
    if p.len() == 1 {
        assert(p.drop_last().len() == 0);
        assert(p.skip(1).len() == 0);
        assert(split_on(p, '/').skip(1) =~= split_on(p.skip(1), '/'));
    } else {
        let q = p.drop_last();
        lemma_split_skip(q);
        lemma_split_two(q);
        assert(p.skip(1).drop_last() =~= q.skip(1));
        assert(p.skip(1).last() == p.last());
        crate::text::lemma_split_nonempty(q.skip(1), '/');
        assert(split_on(p, '/').skip(1) =~= split_on(p.skip(1), '/'));
    }
}

#[verifier::spinoff_prover]
#[verifier::rlimit(40)]
proof fn lemma_set_path_follow(cur: JsonView, parts: Seq<Seq<char>>, i: nat, value: JsonView)
    requires
        i < parts.len(),
        set_path(cur, parts, i, value).1 is None,
        forall|j: int| i <= j < parts.len() ==> plain_part(#[trigger] parts[j]),
    ensures
        follow(set_path(cur, parts, i, value).0, parts.skip(i as int)) == Some(value),
    decreases parts.len() - i,
{
    let part = parts[i as int];
    assert(plain_part(parts[i as int]));
    lemma_unescape_plain(part);
    assert(parts.skip(i as int)[0] == part);
    assert(parts.skip(i as int).skip(1) =~= parts.skip(i + 1 as int));
    if i + 1 == parts.len() {
        assert(parts.skip(i + 1 as int).len() == 0);
        match (parse_usize(part), cur) {
            (Some(k), JsonView::Array(items)) => {
                let p = padded(items, k);
                assert(p.len() > k);
                assert(parse_index(part) == Some(k));
                assert(p.update(k as int, value)[k as int] == value);
            },
            (_, JsonView::Object(es)) => {
                lemma_last_key_is_last(es, part, value);
            },
            _ => {},
        }
    } else {
        let next = container_for(parts[i + 1 as int]);
        match (parse_usize(part), cur) {
            (Some(k), JsonView::Array(items)) => {
                let p = padded(items, k);
                assert(p.len() > k);
                assert(parse_index(part) == Some(k));
                let child = if p[k as int] is Null {
                    next
                } else {
                    p[k as int]
                };
                lemma_set_path_follow(child, parts, i + 1, value);
            },
            (_, JsonView::Object(es)) => {
                let (child, es2) = match view_entry(es, part) {
                    Some(c) => (c, es),
                    None => (next, es.push((part, next))),
                };
                lemma_set_path_follow(child, parts, i + 1, value);
                lemma_last_key_is_last(es2, part, set_path(child, parts, i + 1, value).0);
            },
            _ => {},
        }
    }
}

/// What is set at a path is then found there: when setting succeeds and the
/// path's parts are plain (no `~` escape, indices without sign or leading
/// zero), looking the path up gives back exactly the value set.
pub proof fn lemma_set_then_resolve(v: JsonView, path: Seq<char>, value: JsonView)
    requires
        set_at(v, path, value).1 is None,
        plain_path(path),
    ensures
        resolved(set_at(v, path, value).0, path) == Some(value),
{
    if path.len() == 0 || path == "/"@ {
    } else {
        let rel = relative_path(path);
        let parts = split_on(rel, '/');
        crate::text::lemma_split_nonempty(rel, '/');
        assert forall|j: int| 0 <= j < parts.len() implies plain_part(#[trigger] parts[j]) by {
            assert(plain_part(split_on(relative_path(path), '/')[j]));
        }
        lemma_set_path_follow(v, parts, 0, value);
        assert(parts.skip(0) =~= parts);
        let full = if path[0] == '/' { path } else { "/"@ + path };
        reveal_strlit("/");
        assert(full.len() > 0 && full[0] == '/');
        lemma_split_skip(full);
        assert(full.skip(1) =~= rel);
    }
}


/// Where the last entry with a key stands depends on the keys alone.
proof fn lemma_last_key_same_keys(a: Seq<(Seq<char>, JsonView)>, b: Seq<(Seq<char>, JsonView)>, k: Seq<char>)
    requires
        a.len() == b.len(),
        forall|j: int| 0 <= j < a.len() ==> (#[trigger] a[j]).0 == b[j].0,
    ensures
        last_key_index(a, k) == last_key_index(b, k),
    decreases a.len(),
{
    if a.len() > 0 {
        assert(a.last().0 == b.last().0);
        lemma_last_key_same_keys(a.drop_last(), b.drop_last(), k);
    }
}

/// Following the tokens into a value in which their place was replaced by `w`
/// reaches `w`.
proof fn lemma_follow_replaced(v: JsonView, tokens: Seq<Seq<char>>, w: JsonView)
    requires
        follow(v, tokens) is Some,
    ensures
        follow(replace_view(v, tokens, w), tokens) == Some(w),
    decreases tokens.len(),
{
    if tokens.len() > 0 {
        let t = unescape_token(tokens[0]);
        let rest = tokens.skip(1);
        match v {
            JsonView::Object(es) => {
                lemma_last_key_entry(es, t);
                let i = last_key_index(es, t)->Some_0;
                let c = es[i].1;
                lemma_follow_replaced(c, rest, w);
                let es2 = es.update(i, (es[i].0, replace_view(c, rest, w)));
                lemma_last_key_same_keys(es, es2, t);
                lemma_last_key_entry(es2, t);
            },
            JsonView::Array(items) => {
                let i = parse_index(t)->Some_0;
                lemma_follow_replaced(items[i as int], rest, w);
            },
            _ => {},
        }
    }
}

/// A path of the data model leads where its steps (`path_tokens`) lead.
proof fn lemma_resolved_tokens(v: JsonView, path: Seq<char>)
    ensures
        resolved(v, path) == follow(v, path_tokens(path)),
{
    reveal_strlit("/");
    if !(path.len() == 0 || path == "/"@) && path[0] != '/' {
        assert(("/"@ + path)[0] == '/');
    }
}

/// What a write through the reference that `resolve_pointer_mut` gives for a
/// path is what resolving that path gives afterwards.
pub proof fn lemma_write_then_resolve(v: JsonView, path: Seq<char>, w: JsonView)
    requires
        resolved(v, path) is Some,
    ensures
        resolved(replace_view(v, path_tokens(path), w), path) == Some(w),
{
    lemma_resolved_tokens(v, path);
    lemma_resolved_tokens(replace_view(v, path_tokens(path), w), path);
    lemma_follow_replaced(v, path_tokens(path), w);
}


/// Setting a value below a container made fresh for its part never fails.
proof fn lemma_fresh_set_succeeds(parts: Seq<Seq<char>>, i: nat, value: JsonView)
    requires
        i < parts.len(),
    ensures
        set_path(container_for(parts[i as int]), parts, i, value).1 is None,
    decreases parts.len() - i,
{
    let part = parts[i as int];
    if i + 1 < parts.len() {
        lemma_fresh_set_succeeds(parts, i + 1, value);
        match parse_usize(part) {
            Some(k) => {
                let p = padded(seq![], k);
                assert(p[k as int] is Null);
            },
            None => {},
        }
    }
}

/// A set that fails leaves the value below which it ran as it was.
proof fn lemma_failed_set_path_keeps(cur: JsonView, parts: Seq<Seq<char>>, i: nat, value: JsonView)
    ensures
        set_path(cur, parts, i, value).1 is Some ==> set_path(cur, parts, i, value).0 == cur,
    decreases parts.len() - i,
{
    if i < parts.len() && i + 1 < parts.len() {
        let part = parts[i as int];
        let next = container_for(parts[i + 1 as int]);
        lemma_fresh_set_succeeds(parts, i + 1, value);
        match (parse_usize(part), cur) {
            (Some(k), JsonView::Array(items)) => {
                let p = padded(items, k);
                if k < items.len() {
                    assert(p == items);
                    lemma_failed_set_path_keeps(p[k as int], parts, i + 1, value);
                    assert(p.update(k as int, p[k as int]) =~= items);
                } else {
                    assert(p[k as int] is Null);
                }
            },
            (_, JsonView::Object(es)) => {
                match view_entry(es, part) {
                    Some(c) => {
                        lemma_failed_set_path_keeps(c, parts, i + 1, value);
                        lemma_last_key_entry(es, part);
                        let j = last_key_index(es, part)->Some_0;
                        assert(es.update(j, (part, c)) =~= es);
                    },
                    None => {},
                }
            },
            _ => {},
        }
    }
}

/// A set at a path that is refused leaves the data as it was: only a set
/// that succeeds creates the arrays and objects missing on its way.
pub proof fn lemma_failed_set_keeps_data(v: JsonView, path: Seq<char>, value: JsonView)
    ensures
        set_at(v, path, value).1 is Some ==> set_at(v, path, value).0 == v,
{
    if !(path.len() == 0 || path == "/"@) {
        let rel = if path[0] == '/' { path.skip(1) } else { path };
        lemma_failed_set_path_keeps(v, split_on(rel, '/'), 0, value);
    }
}

} // verus!
