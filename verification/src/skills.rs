//! Skills: `SKILL.md` front matter, field parsing and skill naming.

use vstd::prelude::*;
use crate::json::{JsonValue, member};
use crate::rewind::texts;
use crate::text::{
    chars_of, eq_chars, find_char, find_char_from, has_prefix, is_whitespace, is_ws, lines,
    lines_of, matches_at, occurs_at, rfind_char_upto, rfind_char_before, skip_ws_fwd, slice_range,
    split_chars, split_on, string_from, to_lowercase, lowercase, str_eq, trim, trim_chars,
    trim_end_char, trim_end_char_chars, trim_start_char, trim_start_char_chars, concat_str,
    to_owned_string, contains_chars, contains,
};

verus! {

/// Where a skill comes from.
#[derive(Debug, Clone, Copy, PartialEq, Eq, Hash, Structural)]
pub enum SkillSource {
    /// User-level skill
    User,
    /// Project-level skill
    Project,
    /// Plugin-provided skill
    Plugin,
}

/// The name a source is written with.
pub open spec fn source_name(s: SkillSource) -> Seq<char> {
    match s {
        SkillSource::User => "user"@,
        SkillSource::Project => "project"@,
        SkillSource::Plugin => "plugin"@,
    }
}

impl SkillSource {
    /// The source's name (`user`, `project` or `plugin`), as `Display` writes it.
    pub fn to_string(&self) -> (r: String)
        ensures
            r@ == source_name(*self),
    {
        match self {
            SkillSource::User => String::from_str("user"),
            SkillSource::Project => String::from_str("project"),
            SkillSource::Plugin => String::from_str("plugin"),
        }
    }
}

/// Front matter fields of a `SKILL.md` file.
#[derive(Debug, Clone, Default)]
pub struct SkillFrontmatter {
    pub name: Option<String>,
    pub description: Option<String>,
    pub allowed_tools: Option<String>,
    pub argument_hint: Option<String>,
    pub when_to_use: Option<String>,
    pub version: Option<String>,
    pub model: Option<String>,
    pub user_invocable: Option<String>,
    pub disable_model_invocation: Option<String>,
}

/// The text of an optional string.
pub open spec fn opt_view(o: Option<String>) -> Option<Seq<char>> {
    match o {
        Some(s) => Some(s@),
        None => None,
    }
}

/// A front matter value without surrounding double, then single, quotes.
pub open spec fn unquoted(v: Seq<char>) -> Seq<char> {
    trim_end_char(trim_start_char(trim_end_char(trim_start_char(v, '"'), '"'), '\''), '\'')
}

/// The `key: value` pair of a front matter line: split at the first `:`, both
/// sides trimmed, quotes removed from the value.
pub open spec fn line_entry(line: Seq<char>) -> Option<(Seq<char>, Seq<char>)> {
    match find_char_from(line, ':', 0) {
        None => None,
        Some(i) => Some((trim(line.take(i)), unquoted(trim(line.skip(i + 1))))),
    }
}

/// The value of the last line whose key is `k1` or `k2`.
pub open spec fn last_value(ls: Seq<Seq<char>>, k1: Seq<char>, k2: Seq<char>) -> Option<Seq<char>>
    decreases ls.len(),
{
    if ls.len() == 0 {
        None
    } else {
        match line_entry(ls.last()) {
            Some((k, v)) => if k == k1 || k == k2 {
                Some(v)
            } else {
                last_value(ls.drop_last(), k1, k2)
            },
            None => last_value(ls.drop_last(), k1, k2),
        }
    }
}

/// `fm` holds, for each field, the value of the last line naming it.
pub open spec fn frontmatter_from_lines(fm: SkillFrontmatter, ls: Seq<Seq<char>>) -> bool {
    &&& opt_view(fm.name) == last_value(ls, "name"@, "name"@)
    &&& opt_view(fm.description) == last_value(ls, "description"@, "description"@)
    &&& opt_view(fm.allowed_tools) == last_value(ls, "allowed-tools"@, "allowed-tools"@)
    &&& opt_view(fm.argument_hint) == last_value(ls, "argument-hint"@, "argument-hint"@)
    &&& opt_view(fm.when_to_use) == last_value(ls, "when-to-use"@, "when_to_use"@)
    &&& opt_view(fm.version) == last_value(ls, "version"@, "version"@)
    &&& opt_view(fm.model) == last_value(ls, "model"@, "model"@)
    &&& opt_view(fm.user_invocable) == last_value(ls, "user-invocable"@, "user-invocable"@)
    &&& opt_view(fm.disable_model_invocation) == last_value(
        ls,
        "disable-model-invocation"@,
        "disable-model-invocation"@,
    )
}

/// First occurrence of `p` in `s` at or after `j`.
pub open spec fn find_seq_from(s: Seq<char>, p: Seq<char>, j: int) -> Option<int>
    decreases s.len() + 1 - j,
{
    if j < 0 || j > s.len() {
        None
    } else if occurs_at(s, p, j) {
        Some(j)
    } else {
        find_seq_from(s, p, j + 1)
    }
}

/// Where the front matter block `^---\s*\n([\s\S]*?)---\s*\n?` matches: the
/// start and end of the captured text and the end of the whole match.
pub open spec fn frontmatter_bounds(s: Seq<char>) -> Option<(int, int, int)> {
    if !has_prefix(s, "---"@) {
        None
    } else {
        match rfind_char_before(s, '\n', skip_ws_fwd(s, 3)) {
            None => None,
            Some(k) => match find_seq_from(s, "---"@, k + 1) {
                None => None,
                Some(e) => Some((k + 1, e, skip_ws_fwd(s, e + 3))),
            },
        }
    }
}

/// No field set.
pub open spec fn frontmatter_empty(fm: SkillFrontmatter) -> bool {
    &&& fm.name is None
    &&& fm.description is None
    &&& fm.allowed_tools is None
    &&& fm.argument_hint is None
    &&& fm.when_to_use is None
    &&& fm.version is None
    &&& fm.model is None
    &&& fm.user_invocable is None
    &&& fm.disable_model_invocation is None
}

fn empty_frontmatter() -> (r: SkillFrontmatter)
    ensures
        frontmatter_empty(r),
{
    SkillFrontmatter {
        name: None,
        description: None,
        allowed_tools: None,
        argument_hint: None,
        when_to_use: None,
        version: None,
        model: None,
        user_invocable: None,
        disable_model_invocation: None,
    }
}

fn skip_ws_from(v: &[char], i: usize) -> (r: usize)
    requires
        i <= v@.len(),
    ensures
        r as int == skip_ws_fwd(v@, i as int),
        i <= r <= v@.len(),
{
    let mut a = i;
    while a < v.len() && is_whitespace(v[a])
        invariant
            i <= a <= v@.len(),
            skip_ws_fwd(v@, a as int) == skip_ws_fwd(v@, i as int),
        decreases v@.len() - a,
    {
        a = a + 1;
    }
    a
}

fn find_seq(v: &[char], p: &[char], j: usize) -> (r: Option<usize>)
    requires
        j <= v@.len(),
    ensures
        match r {
            Some(e) => find_seq_from(v@, p@, j as int) == Some(e as int) && j <= e && e + p@.len() <= v@.len(),
            None => find_seq_from(v@, p@, j as int) is None,
        },
{
    let mut i = j;
    loop
        invariant
            j <= i <= v@.len(),
            find_seq_from(v@, p@, i as int) == find_seq_from(v@, p@, j as int),
        decreases v@.len() - i,
    {
        if matches_at(v, p, i) {
            return Some(i);
        }
        if i == v.len() {
            proof {
                assert(find_seq_from(v@, p@, i + 1) is None);
            }
            return None;
        }
        i = i + 1;
    }
}

fn bounds_of_frontmatter(v: &[char]) -> (r: Option<(usize, usize, usize)>)
    ensures
        match r {
            Some((g, e, end)) => frontmatter_bounds(v@) == Some((g as int, e as int, end as int))
                && g <= e <= end <= v@.len(),
            None => frontmatter_bounds(v@) is None,
        },
{
    let n = v.len();
    let dashes = chars_of("---");
    proof {
        reveal_strlit("---");
        assert(dashes@.len() == 3);
    }
    if !matches_at(v, dashes.as_slice(), 0) {
        proof {
            assert(!has_prefix(v@, "---"@)) by {
                if has_prefix(v@, "---"@) {
                    assert(v@.subrange(0, 3) =~= v@.take(3));
                }
            }
        }
        return None;
    }
    proof {
        assert(v@.subrange(0, 3) =~= v@.take(3));
    }
    let w = skip_ws_from(v, 3);
    let k = match rfind_char_upto(v, '\n', w) {
        None => return None,
        Some(k) => k,
    };
    match find_seq(v, dashes.as_slice(), k + 1) {
        None => None,
        Some(e) => {
            let end = skip_ws_from(v, e + 3);
            Some((k + 1, e, end))
        },
    }
}


/// The front matter fields (name, description, allowed-tools, argument-hint,
/// when-to-use, version, model, user-invocable, disable-model-invocation) and
/// the body that `parse_frontmatter` gives for `s`.
pub open spec fn parse_frontmatter_spec(s: Seq<char>) -> (
    (
        Option<Seq<char>>,
        Option<Seq<char>>,
        Option<Seq<char>>,
        Option<Seq<char>>,
        Option<Seq<char>>,
        Option<Seq<char>>,
        Option<Seq<char>>,
        Option<Seq<char>>,
        Option<Seq<char>>,
    ),
    Seq<char>,
) {
    match frontmatter_bounds(s) {
        Some((g, e, end)) => {
            let ls = lines(s.subrange(g, e));
            (
                (
                    last_value(ls, "name"@, "name"@),
                    last_value(ls, "description"@, "description"@),
                    last_value(ls, "allowed-tools"@, "allowed-tools"@),
                    last_value(ls, "argument-hint"@, "argument-hint"@),
                    last_value(ls, "when-to-use"@, "when_to_use"@),
                    last_value(ls, "version"@, "version"@),
                    last_value(ls, "model"@, "model"@),
                    last_value(ls, "user-invocable"@, "user-invocable"@),
                    last_value(ls, "disable-model-invocation"@, "disable-model-invocation"@),
                ),
                s.skip(end),
            )
        },
        None => ((None, None, None, None, None, None, None, None, None), s),
    }
}

fn entry_of(line: &[char]) -> (r: Option<(Vec<char>, Vec<char>)>)
    ensures
        match r {
            Some((key, value)) => line_entry(line@) == Some((key@, value@)),
            None => line_entry(line@) is None,
        },
{
    match find_char(line, ':') {
        None => None,
        Some(i) => {
            let n = line.len();
            let before = slice_range(line, 0, i);
            let after = slice_range(line, i + 1, line.len());
            proof {
                assert(before@ =~= line@.take(i as int));
                assert(after@ =~= line@.skip(i + 1));
            }
            let key = trim_chars(before.as_slice());
            let raw = trim_chars(after.as_slice());
            let a = trim_start_char_chars(raw.as_slice(), '"');
            let b = trim_end_char_chars(a.as_slice(), '"');
            let c = trim_start_char_chars(b.as_slice(), '\'');
            let d = trim_end_char_chars(c.as_slice(), '\'');
            Some((key, d))
        },
    }
}

proof fn lemma_last_value_step(ls: Seq<Seq<char>>, i: int, k1: Seq<char>, k2: Seq<char>)
    requires
        0 <= i < ls.len(),
    ensures
        last_value(ls.take(i + 1), k1, k2) == match line_entry(ls[i]) {
            Some((k, v)) => if k == k1 || k == k2 {
                Some(v)
            } else {
                last_value(ls.take(i), k1, k2)
            },
            None => last_value(ls.take(i), k1, k2),
        },
{
    assert(ls.take(i + 1).drop_last() =~= ls.take(i));
    assert(ls.take(i + 1).last() == ls[i]);
}

/// Splits `content` into its front matter and the body after it. A block
/// `---`, white space up to a line end, then text up to the next `---` and the
/// white space after it is front matter; each of its lines `key: value` sets
/// the field named by `key` (the last such line wins, unknown keys are ignored).
/// Without such a block the front matter is empty and the body is `content`.
pub fn parse_frontmatter(content: &str) -> (r: (SkillFrontmatter, String))
    ensures
        match frontmatter_bounds(content@) {
            Some((g, e, end)) => frontmatter_from_lines(r.0, lines(content@.subrange(g, e)))
                && r.1@ == content@.skip(end),
            None => frontmatter_empty(r.0) && r.1@ == content@,
        },
{
    let v = chars_of(content);
    match bounds_of_frontmatter(v.as_slice()) {
        None => (empty_frontmatter(), to_owned_string(content)),
        Some((g, e, end)) => {
            let text = slice_range(v.as_slice(), g, e);
            let body = slice_range(v.as_slice(), end, v.len());
            proof {
                assert(body@ =~= v@.skip(end as int));
            }
            let ls = lines_of(text.as_slice());
            let ghost lsv = lines(text@);
            let k_name = chars_of("name");
            let k_description = chars_of("description");
            let k_allowed = chars_of("allowed-tools");
            let k_hint = chars_of("argument-hint");
            let k_when = chars_of("when-to-use");
            let k_when2 = chars_of("when_to_use");
            let k_version = chars_of("version");
            let k_model = chars_of("model");
            let k_invocable = chars_of("user-invocable");
            let k_disable = chars_of("disable-model-invocation");
            proof {
                reveal_strlit("name");
                reveal_strlit("description");
                reveal_strlit("allowed-tools");
                reveal_strlit("argument-hint");
                reveal_strlit("when-to-use");
                reveal_strlit("when_to_use");
                reveal_strlit("version");
                reveal_strlit("model");
                reveal_strlit("user-invocable");
                reveal_strlit("disable-model-invocation");
                assert(lsv.take(0) =~= Seq::<Seq<char>>::empty());
            }
            let mut fm = empty_frontmatter();
            let mut i: usize = 0;
            while i < ls.len()
                invariant
                    i <= ls@.len(),
                    ls@.len() == lsv.len(),
                    forall|j: int| 0 <= j < ls@.len() ==> (#[trigger] ls@[j])@ == lsv[j],
                    frontmatter_from_lines(fm, lsv.take(i as int)),
                    k_name@ == "name"@,
                    k_description@ == "description"@,
                    k_allowed@ == "allowed-tools"@,
                    k_hint@ == "argument-hint"@,
                    k_when@ == "when-to-use"@,
                    k_when2@ == "when_to_use"@,
                    k_version@ == "version"@,
                    k_model@ == "model"@,
                    k_invocable@ == "user-invocable"@,
                    k_disable@ == "disable-model-invocation"@,
                decreases ls@.len() - i,
            {
                proof {
                    reveal_strlit("name");
                    reveal_strlit("description");
                    reveal_strlit("allowed-tools");
                    reveal_strlit("argument-hint");
                    reveal_strlit("when-to-use");
                    reveal_strlit("when_to_use");
                    reveal_strlit("version");
                    reveal_strlit("model");
                    reveal_strlit("user-invocable");
                    reveal_strlit("disable-model-invocation");
                    assert("name"@.len() == 4 && "model"@.len() == 5 && "version"@.len() == 7);
                    assert("description"@.len() == 11 && "allowed-tools"@.len() == 13);
                    assert("user-invocable"@.len() == 14 && "disable-model-invocation"@.len() == 24);
                    assert("description"@[0] != "when-to-use"@[0]);
                    assert("description"@[0] != "when_to_use"@[0]);
                    assert("argument-hint"@[1] != "allowed-tools"@[1]);
                    lemma_last_value_step(lsv, i as int, "name"@, "name"@);
                    lemma_last_value_step(lsv, i as int, "description"@, "description"@);
                    lemma_last_value_step(lsv, i as int, "allowed-tools"@, "allowed-tools"@);
                    lemma_last_value_step(lsv, i as int, "argument-hint"@, "argument-hint"@);
                    lemma_last_value_step(lsv, i as int, "when-to-use"@, "when_to_use"@);
                    lemma_last_value_step(lsv, i as int, "version"@, "version"@);
                    lemma_last_value_step(lsv, i as int, "model"@, "model"@);
                    lemma_last_value_step(lsv, i as int, "user-invocable"@, "user-invocable"@);
                    lemma_last_value_step(lsv, i as int, "disable-model-invocation"@, "disable-model-invocation"@);
                }
                match entry_of(ls[i].as_slice()) {
                    None => {},
                    Some((key, value)) => {
                        let val = string_from(value.as_slice());
                        let ks = key.as_slice();
                        if eq_chars(ks, k_name.as_slice()) {
                            fm.name = Some(val);
                        } else if eq_chars(ks, k_description.as_slice()) {
                            fm.description = Some(val);
                        } else if eq_chars(ks, k_allowed.as_slice()) {
                            fm.allowed_tools = Some(val);
                        } else if eq_chars(ks, k_hint.as_slice()) {
                            fm.argument_hint = Some(val);
                        } else if eq_chars(ks, k_when.as_slice()) || eq_chars(ks, k_when2.as_slice()) {
                            fm.when_to_use = Some(val);
                        } else if eq_chars(ks, k_version.as_slice()) {
                            fm.version = Some(val);
                        } else if eq_chars(ks, k_model.as_slice()) {
                            fm.model = Some(val);
                        } else if eq_chars(ks, k_invocable.as_slice()) {
                            fm.user_invocable = Some(val);
                        } else if eq_chars(ks, k_disable.as_slice()) {
                            fm.disable_model_invocation = Some(val);
                        }
                    },
                }
                proof {
                    let t = lsv.take(i + 1);
                    assert(opt_view(fm.name) == last_value(t, "name"@, "name"@));
                    assert(opt_view(fm.description) == last_value(t, "description"@, "description"@));
                    assert(opt_view(fm.allowed_tools) == last_value(t, "allowed-tools"@, "allowed-tools"@));
                    assert(opt_view(fm.argument_hint) == last_value(t, "argument-hint"@, "argument-hint"@));
                    assert(opt_view(fm.when_to_use) == last_value(t, "when-to-use"@, "when_to_use"@));
                    assert(opt_view(fm.version) == last_value(t, "version"@, "version"@));
                    assert(opt_view(fm.model) == last_value(t, "model"@, "model"@));
                    assert(opt_view(fm.user_invocable) == last_value(t, "user-invocable"@, "user-invocable"@));
                    assert(opt_view(fm.disable_model_invocation) == last_value(t, "disable-model-invocation"@, "disable-model-invocation"@));
                }
                i = i + 1;
            }
            proof {
                assert(lsv.take(ls@.len() as int) =~= lsv);
            }
            (fm, string_from(body.as_slice()))
        },
    }
}


/// The trimmed, non-empty pieces among `parts`, in order.
pub open spec fn nonempty_trimmed(parts: Seq<Seq<char>>) -> Seq<Seq<char>>
    decreases parts.len(),
{
    if parts.len() == 0 {
        seq![]
    } else {
        let r = nonempty_trimmed(parts.drop_last());
        let t = trim(parts.last());
        if t.len() > 0 {
            r.push(t)
        } else {
            r
        }
    }
}

/// The tool list an `allowed-tools` value names: none for an empty value; the
/// trimmed non-empty comma-separated names when there is a comma; otherwise the
/// one trimmed value.
pub open spec fn allowed_tools_list(v: Seq<char>) -> Option<Seq<Seq<char>>> {
    if v.len() == 0 {
        None
    } else if find_char_from(v, ',', 0) is Some {
        Some(nonempty_trimmed(split_on(v, ',')))
    } else {
        Some(seq![trim(v)])
    }
}

/// The texts of a list of strings.
pub open spec fn strings_view(l: Seq<String>) -> Seq<Seq<char>> {
    l.map_values(|s: String| s@)
}

/// Parses an `allowed-tools` field into a list of tool names.
pub fn parse_allowed_tools(value: Option<&str>) -> (r: Option<Vec<String>>)
    ensures
        match value {
            None => r is None,
            Some(v) => match r {
                Some(l) => allowed_tools_list(v@) == Some(strings_view(l@)),
                None => allowed_tools_list(v@) is None,
            },
        },
{
    let v = match value {
        None => return None,
        Some(v) => v,
    };
    let cs = chars_of(v);
    if cs.len() == 0 {
        return None;
    }
    if find_char(cs.as_slice(), ',').is_some() {
        let parts = split_chars(cs.as_slice(), ',');
        let ghost pv = split_on(cs@, ',');
        let mut out: Vec<String> = Vec::new();
        let mut i: usize = 0;
        proof {
            assert(pv.take(0) =~= Seq::<Seq<char>>::empty());
            assert(strings_view(out@) =~= Seq::<Seq<char>>::empty());
        }
        while i < parts.len()
            invariant
                i <= parts@.len(),
                parts@.len() == pv.len(),
                forall|j: int| 0 <= j < parts@.len() ==> (#[trigger] parts@[j])@ == pv[j],
                strings_view(out@) == nonempty_trimmed(pv.take(i as int)),
            decreases parts@.len() - i,
        {
            proof {
                assert(pv.take(i + 1).drop_last() =~= pv.take(i as int));
                assert(pv.take(i + 1).last() == pv[i as int]);
            }
            let t = trim_chars(parts[i].as_slice());
            if t.len() > 0 {
                let ghost before = out@;
                out.push(string_from(t.as_slice()));
                proof {
                    assert(strings_view(out@) =~= strings_view(before).push(t@));
                }
            }
            i = i + 1;
        }
        proof {
            assert(pv.take(parts@.len() as int) =~= pv);
        }
        Some(out)
    } else {
        let t = trim_chars(cs.as_slice());
        let mut out: Vec<String> = Vec::new();
        out.push(string_from(t.as_slice()));
        proof {
            assert(strings_view(out@) =~= seq![trim(cs@)]);
        }
        Some(out)
    }
}

/// Whether a flag's text means true: `true`, `1` or `yes`, in any letter case.
pub open spec fn truthy(v: Seq<char>) -> bool {
    lowercase(v) == "true"@ || lowercase(v) == "1"@ || lowercase(v) == "yes"@
}

/// Parses a boolean front matter field; `default` when the field is absent.
pub fn parse_boolean(value: Option<&str>, default: bool) -> (r: bool)
    ensures
        r == match value {
            None => default,
            Some(v) => truthy(v@),
        },
{
    match value {
        None => default,
        Some(v) => {
            let lower = to_lowercase(v);
            let l = lower.as_str();
            str_eq(l, "true") || str_eq(l, "1") || str_eq(l, "yes")
        },
    }
}

/// A skill loaded from a `SKILL.md` file.
#[derive(Debug, Clone)]
pub struct SkillDefinition {
    /// Skill name with namespace, e.g. `user:my-skill`
    pub skill_name: String,
    pub display_name: String,
    pub description: String,
    pub has_user_specified_description: bool,
    /// Markdown body after the front matter
    pub markdown_content: String,
    pub allowed_tools: Option<Vec<String>>,
    pub argument_hint: Option<String>,
    pub when_to_use: Option<String>,
    pub version: Option<String>,
    pub model: Option<String>,
    pub disable_model_invocation: bool,
    pub user_invocable: bool,
    pub source: SkillSource,
    /// Directory holding the skill
    pub base_dir: String,
    /// Path of the `SKILL.md` file
    pub file_path: String,
    /// Other files in the skill directory
    pub supporting_files: Vec<String>,
}

/// The part after the last `:` (the whole name when there is none).
pub open spec fn short_name_of(name: Seq<char>) -> Seq<char> {
    match rfind_char_before(name, ':', name.len() as int) {
        Some(i) => name.skip(i + 1),
        None => name,
    }
}

/// The part before the first `:`, when there is a `:`.
pub open spec fn namespace_of(name: Seq<char>) -> Option<Seq<char>> {
    match find_char_from(name, ':', 0) {
        Some(i) => Some(name.take(i)),
        None => None,
    }
}

impl SkillDefinition {
    /// The skill name without its namespace.
    pub fn short_name(&self) -> (r: String)
        ensures
            r@ == short_name_of(self.skill_name@),
    {
        let v = chars_of(self.skill_name.as_str());
        match rfind_char_upto(v.as_slice(), ':', v.len()) {
            Some(i) => {
                let t = slice_range(v.as_slice(), i + 1, v.len());
                proof {
                    assert(t@ =~= v@.skip(i + 1));
                }
                string_from(t.as_slice())
            },
            None => self.skill_name.clone(),
        }
    }

    /// The namespace of the skill name, if it has one.
    pub fn namespace(&self) -> (r: Option<String>)
        ensures
            opt_view(r) == namespace_of(self.skill_name@),
    {
        let v = chars_of(self.skill_name.as_str());
        match find_char(v.as_slice(), ':') {
            Some(i) => {
                let t = slice_range(v.as_slice(), 0, i);
                proof {
                    assert(t@ =~= v@.take(i as int));
                }
                Some(string_from(t.as_slice()))
            },
            None => None,
        }
    }
}

/// `prefix:name`, with `unknown` for a missing name.
pub open spec fn qualified_name(prefix: Seq<char>, name: Option<Seq<char>>) -> Seq<char> {
    prefix + ":"@ + match name {
        Some(n) => n,
        None => "unknown"@,
    }
}

/// The name a skill found in directory `dir_name` gets: `prefix:dir_name`.
pub fn qualified_skill_name(prefix: &str, dir_name: Option<&str>) -> (r: String)
    ensures
        r@ == qualified_name(prefix@, match dir_name {
            Some(n) => Some(n@),
            None => None,
        }),
{
    let mut r = concat_str(prefix, ":");
    match dir_name {
        Some(n) => r.append(n),
        None => r.append("unknown"),
    }
    r
}

/// The id a cached plugin is enabled under: `plugin@marketplace`.
pub fn plugin_id(plugin_name: &str, marketplace_name: &str) -> (r: String)
    ensures
        r@ == plugin_name@ + "@"@ + marketplace_name@,
{
    let mut r = concat_str(plugin_name, "@");
    r.append(marketplace_name);
    r
}

/// Whether the cached plugin `plugin_name` of `marketplace_name` is among the
/// enabled ones (by its id `plugin@marketplace`).
pub fn is_plugin_enabled(enabled: &Vec<String>, plugin_name: &str, marketplace_name: &str) -> (r: bool)
    ensures
        r == texts(enabled@).contains(plugin_name@ + "@"@ + marketplace_name@),
{
    let id = plugin_id(plugin_name, marketplace_name);
    let mut i: usize = 0;
    while i < enabled.len()
        invariant
            i <= enabled@.len(),
            id@ == plugin_name@ + "@"@ + marketplace_name@,
            forall|j: int| 0 <= j < i ==> (#[trigger] enabled@[j])@ != id@,
        decreases enabled@.len() - i,
    {
        if crate::text::str_eq(enabled[i].as_str(), id.as_str()) {
            proof {
                assert(texts(enabled@)[i as int] == id@);
            }
            return true;
        }
        i = i + 1;
    }
    proof {
        if texts(enabled@).contains(id@) {
            let j = choose|j: int| 0 <= j < texts(enabled@).len() && texts(enabled@)[j] == id@;
            assert(enabled@[j]@ == id@);
        }
    }
    false
}

/// The skill a `SKILL.md` file with this content defines.
pub fn skill_from_content(
    skill_name: &str,
    content: &str,
    source: SkillSource,
    base_dir: String,
    file_path: String,
    supporting_files: Vec<String>,
) -> (r: SkillDefinition)
    ensures
        ({
            let (fm, body) = parse_frontmatter_spec(content@);
            &&& r.skill_name@ == skill_name@
            &&& r.display_name@ == match fm.0 {
                Some(n) => n,
                None => skill_name@,
            }
            &&& r.description@ == match fm.1 {
                Some(d) => d,
                None => Seq::<char>::empty(),
            }
            &&& r.has_user_specified_description == (fm.1 is Some)
            &&& r.markdown_content@ == body
            &&& match fm.2 {
                Some(t) => match r.allowed_tools {
                    Some(l) => allowed_tools_list(t) == Some(strings_view(l@)),
                    None => allowed_tools_list(t) is None,
                },
                None => r.allowed_tools is None,
            }
            &&& opt_view(r.argument_hint) == fm.3
            &&& opt_view(r.when_to_use) == fm.4
            &&& opt_view(r.version) == fm.5
            &&& opt_view(r.model) == fm.6
            &&& r.user_invocable == match fm.7 {
                Some(v) => truthy(v),
                None => true,
            }
            &&& r.disable_model_invocation == match fm.8 {
                Some(v) => truthy(v),
                None => false,
            }
            &&& r.source == source
            &&& r.base_dir == base_dir
            &&& r.file_path == file_path
            &&& r.supporting_files == supporting_files
        }),
{
    let (frontmatter, markdown_content) = parse_frontmatter(content);
    let display_name = match &frontmatter.name {
        Some(n) => n.clone(),
        None => to_owned_string(skill_name),
    };
    let description = match &frontmatter.description {
        Some(d) => d.clone(),
        None => String::new(),
    };
    let has_user_specified_description = frontmatter.description.is_some();
    let allowed_tools = match &frontmatter.allowed_tools {
        Some(t) => parse_allowed_tools(Some(t.as_str())),
        None => None,
    };
    let disable_model_invocation = match &frontmatter.disable_model_invocation {
        Some(v) => parse_boolean(Some(v.as_str()), false),
        None => false,
    };
    let user_invocable = match &frontmatter.user_invocable {
        Some(v) => parse_boolean(Some(v.as_str()), true),
        None => true,
    };
    SkillDefinition {
        skill_name: to_owned_string(skill_name),
        display_name,
        description,
        has_user_specified_description,
        markdown_content,
        allowed_tools,
        argument_hint: frontmatter.argument_hint,
        when_to_use: frontmatter.when_to_use,
        version: frontmatter.version,
        model: frontmatter.model,
        disable_model_invocation,
        user_invocable,
        source,
        base_dir,
        file_path,
        supporting_files,
    }
}

/// A record of a skill that was invoked.
#[derive(Debug, Clone)]
pub struct InvokedSkill {
    pub skill_name: String,
    /// The skill file's path
    pub skill_path: String,
    /// The content that was invoked
    pub content: String,
    /// When it was invoked
    pub invoked_at: u64,
}

/// What running a skill gave.
#[derive(Debug, Clone)]
pub struct SkillExecutionResult {
    pub success: bool,
    pub output: Option<String>,
    pub error: Option<String>,
    /// The command or skill that ran
    pub command_name: Option<String>,
    /// The tools the skill may use
    pub allowed_tools: Option<Vec<String>>,
    /// The model the skill prefers
    pub model: Option<String>,
}

/// The ids whose entry is `true`, in order.
pub open spec fn enabled_ids(entries: Seq<(String, JsonValue)>) -> Seq<Seq<char>>
    decreases entries.len(),
{
    if entries.len() == 0 {
        seq![]
    } else {
        let rest = enabled_ids(entries.drop_last());
        if entries.last().1 == JsonValue::Bool(true) {
            rest.push(entries.last().0@)
        } else {
            rest
        }
    }
}

/// The plugins a settings document enables: the keys of its `enabledPlugins`
/// object whose value is `true`.
pub open spec fn enabled_plugin_ids(settings: JsonValue) -> Seq<Seq<char>> {
    match member(settings, "enabledPlugins"@) {
        Some(JsonValue::Object(es)) => enabled_ids(es@),
        _ => seq![],
    }
}

/// The plugins a settings document enables.
pub fn enabled_plugins(settings: &JsonValue) -> (r: Vec<String>)
    ensures
        texts(r@) == enabled_plugin_ids(*settings),
{
    let mut out: Vec<String> = Vec::new();
    proof {
        assert(texts(out@) =~= Seq::<Seq<char>>::empty());
    }
    match settings.get("enabledPlugins") {
        Some(JsonValue::Object(es)) => {
            let mut i: usize = 0;
            proof {
                assert(es@.take(0) =~= Seq::<(String, JsonValue)>::empty());
            }
            while i < es.len()
                invariant
                    i <= es@.len(),
                    texts(out@) == enabled_ids(es@.take(i as int)),
                decreases es@.len() - i,
            {
                proof {
                    assert(es@.take(i + 1).drop_last() =~= es@.take(i as int));
                    assert(es@.take(i + 1).last() == es@[i as int]);
                }
                let on = match &es[i].1 {
                    JsonValue::Bool(b) => *b,
                    _ => false,
                };
                if on {
                    let ghost before = out@;
                    let id = es[i].0.clone();
                    out.push(id);
                    proof {
                        assert(texts(out@) =~= texts(before).push(es@[i as int].0@));
                    }
                }
                i = i + 1;
            }
            proof {
                assert(es@.take(es@.len() as int) =~= es@);
            }
        },
        _ => {},
    }
    out
}


proof fn lemma_first_colon(k: Seq<char>, v: Seq<char>, i: int)
    requires
        0 <= i <= k.len(),
        forall|j: int| 0 <= j < k.len() ==> k[j] != ':',
    ensures
        find_char_from(k + ":"@ + v, ':', i) == Some(k.len() as int),
    decreases k.len() - i,
{
    reveal_strlit(":");
    let line = k + ":"@ + v;
    if i < k.len() {
        assert(line[i] == k[i]);
        lemma_first_colon(k, v, i + 1);
    } else {
        assert(line[k.len() as int] == ':');
    }
}

/// A front matter line `key: value` is split at its first colon: the key is
/// everything before it, trimmed, and the value everything after it,
/// trimmed and unquoted, whatever colons the value holds.
pub proof fn lemma_line_splits_at_first_colon(k: Seq<char>, v: Seq<char>)
    requires
        forall|j: int| 0 <= j < k.len() ==> k[j] != ':',
    ensures
        line_entry(k + ":"@ + v) == Some((trim(k), unquoted(trim(v)))),
{
    reveal_strlit(":");
    lemma_first_colon(k, v, 0);
    let line = k + ":"@ + v;
    assert(line.take(k.len() as int) =~= k);
    assert(line.skip(k.len() as int + 1) =~= v);
}

/// A line without a colon sets no field.
pub proof fn lemma_line_without_colon(line: Seq<char>)
    requires
        forall|j: int| 0 <= j < line.len() ==> line[j] != ':',
    ensures
        line_entry(line) is None,
{
    lemma_no_colon(line, 0);
}

proof fn lemma_no_colon(line: Seq<char>, i: int)
    requires
        0 <= i <= line.len(),
        forall|j: int| 0 <= j < line.len() ==> line[j] != ':',
    ensures
        find_char_from(line, ':', i) is None,
    decreases line.len() - i,
{
    if i < line.len() {
        lemma_no_colon(line, i + 1);
    }
}

} // verus!


