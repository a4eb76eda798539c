//! The `subagent` tool: parameter checks, task summaries and labels for child
//! sessions, the tool description, and how settings and extensions are
//! narrowed for the child.

use vstd::prelude::*;
use crate::json::{JsonValue, JsonView, json_str, json_view, json_object, json_array, json_text, text_view};
use crate::ask::typed_view;
use crate::text::{
    chars_of, concat_str, eq_chars, normalize_whitespace_chars, normalize_ws, slice_range,
    string_from, trim, trim_chars, join, join_chars,
};

verus! {

/// Name of the tool.
pub const SUBAGENT_TOOL_NAME: &'static str = "subagent";

/// Longest task summary shown for a child session, in characters.
pub const SUBAGENT_TASK_SUMMARY_MAX_CHARS: usize = 160;

/// Whether a subagent returns only its final summary unless told otherwise.
pub fn default_summary() -> (r: bool)
    ensures
        r,
{
    true
}

/// A predefined recipe the subagent can run.
#[derive(Debug, Clone)]
pub struct SubRecipe {
    pub name: String,
    pub path: String,
    /// Parameter values fixed by the parent recipe
    pub values: Option<Vec<(String, String)>>,
    pub sequential_when_repeated: bool,
    pub description: Option<String>,
}

/// The names of the subrecipes, in order.
pub open spec fn recipe_names(rs: Seq<SubRecipe>) -> Seq<Seq<char>> {
    rs.map_values(|r: SubRecipe| r.name@)
}

/// The refusal of a subrecipe that is not offered: its name and the names
/// that are.
pub open spec fn unknown_subrecipe_text(name: Seq<char>, rs: Seq<SubRecipe>) -> Seq<char> {
    "Unknown subrecipe '"@ + name + "'. Available: "@ + join(recipe_names(rs), ", "@)
}

/// The position of the subrecipe named `name` (the first one); refused, with
/// the names on offer, when none has that name.
pub fn find_sub_recipe(sub_recipes: &[SubRecipe], name: &str) -> (r: Result<usize, String>)
    ensures
        match r {
            Ok(i) => i < sub_recipes@.len() && sub_recipes@[i as int].name@ == name@
                && forall|j: int| 0 <= j < i ==> (#[trigger] sub_recipes@[j]).name@ != name@,
            Err(m) => (forall|j: int| 0 <= j < sub_recipes@.len() ==> (#[trigger] sub_recipes@[j]).name@ != name@)
                && m@ == unknown_subrecipe_text(name@, sub_recipes@),
        },
{
    let mut i: usize = 0;
    let mut names: Vec<Vec<char>> = Vec::new();
    while i < sub_recipes.len()
        invariant
            i <= sub_recipes@.len(),
            forall|j: int| 0 <= j < i ==> (#[trigger] sub_recipes@[j]).name@ != name@,
            names@.len() == i,
            forall|j: int| 0 <= j < i ==> (#[trigger] names@[j])@ == sub_recipes@[j].name@,
        decreases sub_recipes@.len() - i,
    {
        if crate::text::str_eq(sub_recipes[i].name.as_str(), name) {
            return Ok(i);
        }
        names.push(chars_of(sub_recipes[i].name.as_str()));
        i = i + 1;
    }
    let sep = chars_of(", ");
    let listed = join_chars(&names, sep.as_slice());
    proof {
        assert(names@.map_values(|w: Vec<char>| w@) =~= recipe_names(sub_recipes@));
    }
    let mut m = String::from_str("Unknown subrecipe '");
    m.append(name);
    m.append("'. Available: ");
    m.append(string_from(listed.as_slice()).as_str());
    Err(m)
}

/// Model overrides requested for a subagent.
#[derive(Debug, Clone)]
pub struct SubagentSettings {
    pub provider: Option<String>,
    pub model: Option<String>,
    /// Whether a temperature override was given
    pub has_temperature: bool,
}

/// An image handed to the subagent.
#[derive(Debug, Clone)]
pub struct ImageData {
    pub data: String,
    pub mime_type: String,
}

/// Parameters of a `subagent` call.
#[derive(Debug, Clone)]
pub struct SubagentParams {
    pub instructions: Option<String>,
    pub subrecipe: Option<String>,
    pub role_hint: Option<String>,
    /// Names of the recipe parameters supplied, when any were
    pub parameters: Option<Vec<String>>,
    pub extensions: Option<Vec<String>>,
    pub settings: Option<SubagentSettings>,
    pub summary: bool,
    pub images: Option<Vec<ImageData>>,
}

/// The text of an optional string.
pub open spec fn text_of(o: Option<String>) -> Option<Seq<char>> {
    match o {
        Some(s) => Some(s@),
        None => None,
    }
}

/// At most `max` characters: unchanged when it fits, else cut, with `...`
/// marking the cut when there is room for it.
pub open spec fn truncated(v: Seq<char>, max: nat) -> Seq<char> {
    if v.len() <= max {
        v
    } else if max <= 3 {
        v.take(max as int)
    } else {
        v.take(max - 3) + "..."@
    }
}

/// A truncated text never exceeds its limit.
pub proof fn lemma_truncated_fits(v: Seq<char>, max: nat)
    ensures
        truncated(v, max).len() <= max,
        v.len() <= max ==> truncated(v, max) == v,
{
    reveal_strlit("...");
}

/// `value` cut to at most `max_chars` characters.
pub fn truncate_chars(value: &str, max_chars: usize) -> (r: String)
    ensures
        r@ == truncated(value@, max_chars as nat),
{
    let v = chars_of(value);
    if v.len() <= max_chars {
        return String::from_str(value);
    }
    if max_chars <= 3 {
        let t = slice_range(v.as_slice(), 0, max_chars);
        proof {
            assert(t@ =~= v@.take(max_chars as int));
        }
        return string_from(t.as_slice());
    }
    let t = slice_range(v.as_slice(), 0, max_chars - 3);
    proof {
        assert(t@ =~= v@.take(max_chars - 3));
    }
    let mut r = string_from(t.as_slice());
    r.append("...");
    r
}

/// White space collapsed to single spaces, none at the ends.
pub fn normalize_whitespace(value: &str) -> (r: String)
    ensures
        r@ == normalize_ws(value@),
{
    let v = chars_of(value);
    let n = normalize_whitespace_chars(v.as_slice());
    string_from(n.as_slice())
}

/// A display label: white space normalised and trimmed, none when empty.
pub open spec fn label_of(value: Option<Seq<char>>) -> Option<Seq<char>> {
    let n = trim(normalize_ws(
        match value {
            Some(v) => v,
            None => Seq::empty(),
        },
    ));
    if n.len() == 0 {
        None
    } else {
        Some(n)
    }
}

/// A normalised label for a subagent, if the text has any.
pub fn normalize_subagent_label(value: Option<&str>) -> (r: Option<String>)
    ensures
        text_of(r) == label_of(match value {
            Some(v) => Some(v@),
            None => None,
        }),
{
    let n = match value {
        Some(v) => normalize_whitespace_chars(chars_of(v).as_slice()),
        None => {
            let e: Vec<char> = Vec::new();
            proof {
                assert(normalize_ws(Seq::<char>::empty()) =~= Seq::<char>::empty()) by {
                    reveal_with_fuel(crate::text::words, 1);
                }
            }
            e
        },
    };
    let t = trim_chars(n.as_slice());
    if t.len() == 0 {
        None
    } else {
        Some(string_from(t.as_slice()))
    }
}

/// A trimmed identifier, none when empty.
pub open spec fn identifier_of(value: Option<Seq<char>>) -> Option<Seq<char>> {
    match value {
        Some(v) => if trim(v).len() == 0 {
            None
        } else {
            Some(trim(v))
        },
        None => None,
    }
}

/// The trimmed identifier, if it is not blank.
pub fn normalize_optional_identifier(value: Option<String>) -> (r: Option<String>)
    ensures
        text_of(r) == identifier_of(text_of(value)),
{
    let v = match value {
        Some(v) => v,
        None => return None,
    };
    let t = trim_chars(chars_of(v.as_str()).as_slice());
    if t.len() == 0 {
        None
    } else {
        Some(string_from(t.as_slice()))
    }
}


/// The subrecipe name, trimmed, when not blank.
pub open spec fn subrecipe_label(s: Option<Seq<char>>) -> Option<Seq<char>> {
    match s {
        Some(v) => if trim(v).len() > 0 {
            Some(trim(v))
        } else {
            None
        },
        None => None,
    }
}

/// The instructions, white space normalised and cut to the summary length,
/// when not blank.
pub open spec fn instruction_preview(i: Option<Seq<char>>) -> Option<Seq<char>> {
    match i {
        Some(v) => if normalize_ws(v).len() > 0 {
            Some(truncated(normalize_ws(v), SUBAGENT_TASK_SUMMARY_MAX_CHARS as nat))
        } else {
            None
        },
        None => None,
    }
}

/// The one-line summary of a subagent task.
pub open spec fn task_summary(instructions: Option<Seq<char>>, subrecipe: Option<Seq<char>>, title: Seq<char>) -> Option<Seq<char>> {
    let max = SUBAGENT_TASK_SUMMARY_MAX_CHARS as nat;
    match (subrecipe_label(subrecipe), instruction_preview(instructions)) {
        (Some(s), Some(i)) => Some(truncated("Run subrecipe `"@ + s + "`: "@ + i, max)),
        (Some(s), None) => Some(truncated("Run subrecipe `"@ + s + "`"@, max)),
        (None, Some(i)) => Some(i),
        (None, None) => if trim(title).len() == 0 {
            None
        } else {
            Some(truncated(trim(title), max))
        },
    }
}

/// The summary of the task a subagent is given; `recipe_title` is the title of
/// the recipe it runs.
pub fn build_subagent_task_summary(params: &SubagentParams, recipe_title: &str) -> (r: Option<String>)
    ensures
        text_of(r) == task_summary(text_of(params.instructions), text_of(params.subrecipe), recipe_title@),
{
    let name = match &params.subrecipe {
        Some(s) => {
            let t = trim_chars(chars_of(s.as_str()).as_slice());
            if t.len() > 0 {
                Some(string_from(t.as_slice()))
            } else {
                None
            }
        },
        None => None,
    };
    let preview = match &params.instructions {
        Some(i) => {
            let n = normalize_whitespace(i.as_str());
            if n.as_str().is_empty() {
                None
            } else {
                Some(truncate_chars(n.as_str(), SUBAGENT_TASK_SUMMARY_MAX_CHARS))
            }
        },
        None => None,
    };
    match (name, preview) {
        (Some(s), Some(i)) => {
            let mut t = concat_str("Run subrecipe `", s.as_str());
            t.append("`: ");
            t.append(i.as_str());
            Some(truncate_chars(t.as_str(), SUBAGENT_TASK_SUMMARY_MAX_CHARS))
        },
        (Some(s), None) => {
            let mut t = concat_str("Run subrecipe `", s.as_str());
            t.append("`");
            Some(truncate_chars(t.as_str(), SUBAGENT_TASK_SUMMARY_MAX_CHARS))
        },
        (None, Some(i)) => Some(i),
        (None, None) => {
            let t = trim_chars(chars_of(recipe_title).as_slice());
            if t.len() == 0 {
                None
            } else {
                let ts = string_from(t.as_slice());
                Some(truncate_chars(ts.as_str(), SUBAGENT_TASK_SUMMARY_MAX_CHARS))
            }
        },
    }
}

/// The label of a subagent: its role hint, else its subrecipe name.
pub open spec fn role_hint_of(role_hint: Option<Seq<char>>, subrecipe: Option<Seq<char>>) -> Option<Seq<char>> {
    match label_of(role_hint) {
        Some(l) => Some(l),
        None => label_of(subrecipe),
    }
}

fn label_of_opt_string(s: &Option<String>) -> (r: Option<String>)
    ensures
        text_of(r) == label_of(text_of(*s)),
{
    match s {
        Some(v) => normalize_subagent_label(Some(v.as_str())),
        None => normalize_subagent_label(None),
    }
}

/// The label a subagent is shown with, if any.
pub fn build_subagent_role_hint(params: &SubagentParams) -> (r: Option<String>)
    ensures
        text_of(r) == role_hint_of(text_of(params.role_hint), text_of(params.subrecipe)),
{
    match label_of_opt_string(&params.role_hint) {
        Some(l) => Some(l),
        None => label_of_opt_string(&params.subrecipe),
    }
}

/// The name of a child session: its label, else its task summary, else
/// `Subagent task`.
pub open spec fn session_name_of(params: SubagentParams, title: Seq<char>) -> Seq<char> {
    match role_hint_of(text_of(params.role_hint), text_of(params.subrecipe)) {
        Some(l) => l,
        None => match task_summary(text_of(params.instructions), text_of(params.subrecipe), title) {
            Some(s) => truncated(s, SUBAGENT_TASK_SUMMARY_MAX_CHARS as nat),
            None => "Subagent task"@,
        },
    }
}

/// The name the child session gets.
pub fn build_subagent_session_name(params: &SubagentParams, recipe_title: &str) -> (r: String)
    ensures
        r@ == session_name_of(*params, recipe_title@),
{
    match build_subagent_role_hint(params) {
        Some(l) => l,
        None => match build_subagent_task_summary(params, recipe_title) {
            Some(s) => truncate_chars(s.as_str(), SUBAGENT_TASK_SUMMARY_MAX_CHARS),
            None => String::from_str("Subagent task"),
        },
    }
}

/// The scope of the action being served: session, thread and turn ids.
#[derive(Debug, Clone, PartialEq, Eq)]
pub struct ActionRequiredScope {
    pub session_id: Option<String>,
    pub thread_id: Option<String>,
    pub turn_id: Option<String>,
}

/// The parent turn a child session is created from: the current scope's turn,
/// when the scope belongs to the parent session.
pub open spec fn parent_turn_of(parent_session_id: Seq<char>, scope: Option<ActionRequiredScope>) -> Option<Seq<char>> {
    match scope {
        None => None,
        Some(s) => if text_of(s.session_id) == Some(parent_session_id) {
            identifier_of(text_of(s.turn_id))
        } else {
            None
        },
    }
}

/// The id of the parent turn, given the scope the call runs in.
pub fn resolve_parent_turn_id(parent_session_id: &str, scope: Option<ActionRequiredScope>) -> (r: Option<String>)
    ensures
        text_of(r) == parent_turn_of(parent_session_id@, scope),
{
    let scope = match scope {
        None => return None,
        Some(s) => s,
    };
    let same = match &scope.session_id {
        Some(id) => eq_chars(chars_of(id.as_str()).as_slice(), chars_of(parent_session_id).as_slice()),
        None => false,
    };
    if !same {
        return None;
    }
    normalize_optional_identifier(scope.turn_id)
}

/// Why parameters of a `subagent` call are refused, if they are: neither
/// instructions nor subrecipe, or recipe parameters without a subrecipe.
pub open spec fn params_problem(params: SubagentParams) -> Option<Seq<char>> {
    if params.instructions is None && params.subrecipe is None {
        Some("Must provide 'instructions' or 'subrecipe' (or both)"@)
    } else if params.parameters is Some && params.subrecipe is None {
        Some("'parameters' can only be used with 'subrecipe'"@)
    } else {
        None
    }
}

/// Checks the combination of parameters of a `subagent` call.
pub fn check_subagent_params(params: &SubagentParams) -> (r: Result<(), String>)
    ensures
        match r {
            Ok(()) => params_problem(*params) is None,
            Err(m) => params_problem(*params) == Some(m@),
        },
{
    if params.instructions.is_none() && params.subrecipe.is_none() {
        return Err(String::from_str("Must provide 'instructions' or 'subrecipe' (or both)"));
    }
    if params.parameters.is_some() && params.subrecipe.is_none() {
        return Err(String::from_str("'parameters' can only be used with 'subrecipe'"));
    }
    Ok(())
}

/// The text appended to a recipe's instructions when only a summary is wanted.
pub const SUMMARY_INSTRUCTIONS: &'static str = "
Important: Your parent agent will only receive your final message as a summary of your work.
Make sure your last message provides a comprehensive summary of:
- What you were asked to do
- What actions you took
- The results or outcomes
- Any important findings or recommendations

Be concise but complete.
";

/// The instructions of the recipe a subagent runs, with the summary request
/// appended (after a line break) when `summary` is set.
pub fn with_summary_instructions(instructions: Option<String>, summary: bool) -> (r: Option<String>)
    ensures
        summary ==> r is Some && r->0@ == match instructions {
            Some(i) => i@,
            None => Seq::<char>::empty(),
        } + "\n"@ + SUMMARY_INSTRUCTIONS@,
        !summary ==> r == instructions,
{
    if !summary {
        return instructions;
    }
    let mut current = match instructions {
        Some(i) => i,
        None => String::new(),
    };
    current.append("\n");
    current.append(SUMMARY_INSTRUCTIONS);
    Some(current)
}

/// A subrecipe's instructions with extra instructions appended, separated by a
/// blank line when the recipe has instructions of its own.
pub fn append_extra_instructions(instructions: Option<String>, extra: Option<&str>) -> (r: Option<String>)
    ensures
        match extra {
            None => r == instructions,
            Some(e) => r is Some && r->0@ == match instructions {
                Some(i) => if i@.len() == 0 {
                    e@
                } else {
                    i@ + "\n\n"@ + e@
                },
                None => e@,
            },
        },
{
    let extra = match extra {
        None => return instructions,
        Some(e) => e,
    };
    let mut current = match instructions {
        Some(i) => i,
        None => String::new(),
    };
    if !current.as_str().is_empty() {
        current.append("\n\n");
    }
    current.append(extra);
    Some(current)
}


/// The fixed part of the tool's description.
pub const SUBAGENT_TOOL_DESCRIPTION: &'static str = "Delegate a task to a subagent that runs independently with its own context.\n\n\
     Modes:\n\
     1. Ad-hoc: Provide `instructions` for a custom task\n\
     2. Predefined: Provide `subrecipe` name to run a predefined task\n\
     3. Augmented: Provide both `subrecipe` and `instructions` to add context\n\n\
     The subagent has access to the same tools as you by default. \
     Use `extensions` to limit which extensions the subagent can use.\n\n\
     For parallel execution, make multiple `subagent` tool calls in the same message.";

/// The description line of one subrecipe; `info` lists its open parameters.
pub open spec fn subrecipe_line(sr: SubRecipe, info: Seq<char>) -> Seq<char> {
    "\n• "@ + sr.name@ + (if sr.sequential_when_repeated {
        " [run sequentially, not in parallel]"@
    } else {
        Seq::empty()
    }) + " - "@ + (match sr.description {
        Some(d) => d@,
        None => "No description"@,
    }) + (if info.len() == 0 {
        Seq::empty()
    } else {
        " (params: "@ + info + ")"@
    })
}

/// The lines of the first `n` subrecipes.
pub open spec fn subrecipe_lines(srs: Seq<SubRecipe>, infos: Seq<Seq<char>>, n: int) -> Seq<char>
    decreases n,
{
    if n <= 0 {
        Seq::empty()
    } else {
        subrecipe_lines(srs, infos, n - 1) + subrecipe_line(srs[n - 1], infos[n - 1])
    }
}

/// The tool's description for these subrecipes (with their open parameters).
pub open spec fn tool_description(srs: Seq<SubRecipe>, infos: Seq<Seq<char>>) -> Seq<char> {
    SUBAGENT_TOOL_DESCRIPTION@ + if srs.len() == 0 {
        Seq::empty()
    } else {
        "\n\nAvailable subrecipes:"@ + subrecipe_lines(srs, infos, srs.len() as int)
    }
}

fn append_subrecipe_line(desc: &mut String, sr: &SubRecipe, info: &str)
    ensures
        final(desc)@ == old(desc)@ + subrecipe_line(*sr, info@),
{
    let ghost start = desc@;
    desc.append("\n• ");
    desc.append(sr.name.as_str());
    if sr.sequential_when_repeated {
        desc.append(" [run sequentially, not in parallel]");
    }
    desc.append(" - ");
    match &sr.description {
        Some(d) => desc.append(d.as_str()),
        None => desc.append("No description"),
    }
    if !info.is_empty() {
        desc.append(" (params: ");
        desc.append(info);
        desc.append(")");
    }
    proof {
        assert(desc@ =~= start + subrecipe_line(*sr, info@));
    }
}

/// The description of the `subagent` tool; `params_info[i]` describes the open
/// parameters of `sub_recipes[i]` (empty when it has none or its recipe could
/// not be read).
pub fn build_tool_description(sub_recipes: &[SubRecipe], params_info: &[String]) -> (r: String)
    requires
        params_info@.len() == sub_recipes@.len(),
    ensures
        r@ == tool_description(sub_recipes@, params_info@.map_values(|s: String| s@)),
{
    let ghost infos = params_info@.map_values(|s: String| s@);
    let mut desc = String::from_str(SUBAGENT_TOOL_DESCRIPTION);
    if sub_recipes.len() == 0 {
        return desc;
    }
    desc.append("\n\nAvailable subrecipes:");
    let ghost base = desc@;
    let mut i: usize = 0;
    while i < sub_recipes.len()
        invariant
            i <= sub_recipes@.len(),
            params_info@.len() == sub_recipes@.len(),
            infos == params_info@.map_values(|s: String| s@),
            desc@ == base + subrecipe_lines(sub_recipes@, infos, i as int),
        decreases sub_recipes@.len() - i,
    {
        append_subrecipe_line(&mut desc, &sub_recipes[i], params_info[i].as_str());
        i = i + 1;
    }
    desc
}

/// A recipe parameter: its key and whether it is required.
#[derive(Debug, Clone)]
pub struct RecipeParameter {
    pub key: String,
    pub required: bool,
}

/// Whether `values` has an entry for `k`.
pub open spec fn has_key(values: Seq<(String, String)>, k: Seq<char>) -> bool {
    exists|i: int| 0 <= i < values.len() && (#[trigger] values[i]).0@ == k
}

/// `key [required]` or `key [optional]` for each parameter that the subrecipe
/// does not fix.
pub open spec fn open_param_entries(ps: Seq<RecipeParameter>, values: Option<Seq<(String, String)>>) -> Seq<Seq<char>>
    decreases ps.len(),
{
    if ps.len() == 0 {
        seq![]
    } else {
        let r = open_param_entries(ps.drop_last(), values);
        let p = ps.last();
        let fixed = match values {
            Some(v) => has_key(v, p.key@),
            None => false,
        };
        if fixed {
            r
        } else {
            r.push(p.key@ + if p.required {
                " [required]"@
            } else {
                " [optional]"@
            })
        }
    }
}

fn values_have_key(values: &Vec<(String, String)>, key: &str) -> (r: bool)
    ensures
        r == has_key(values@, key@),
{
    let k = chars_of(key);
    let mut i: usize = 0;
    while i < values.len()
        invariant
            i <= values@.len(),
            k@ == key@,
            forall|j: int| 0 <= j < i ==> (#[trigger] values@[j]).0@ != key@,
        decreases values@.len() - i,
    {
        if eq_chars(chars_of(values[i].0.as_str()).as_slice(), k.as_slice()) {
            return true;
        }
        i = i + 1;
    }
    false
}

/// The open parameters of a subrecipe, as shown in the tool description:
/// `parameters` are those of its recipe (none when it declares none), `values`
/// those the subrecipe fixes.
pub fn get_subrecipe_params_description(parameters: Option<&Vec<RecipeParameter>>, values: Option<&Vec<(String, String)>>) -> (r: String)
    ensures
        r@ == match parameters {
            None => Seq::<char>::empty(),
            Some(ps) => join(open_param_entries(ps@, match values {
                Some(v) => Some(v@),
                None => None,
            }), ", "@),
        },
{
    let ps = match parameters {
        None => return String::new(),
        Some(ps) => ps,
    };
    let ghost vs = match values {
        Some(v) => Some(v@),
        None => None,
    };
    let mut entries: Vec<Vec<char>> = Vec::new();
    let mut i: usize = 0;
    while i < ps.len()
        invariant
            i <= ps@.len(),
            vs == match values {
                Some(v) => Some(v@),
                None => None::<Seq<(String, String)>>,
            },
            entries@.map_values(|w: Vec<char>| w@) == open_param_entries(ps@.take(i as int), vs),
        decreases ps@.len() - i,
    {
        proof {
            assert(ps@.take(i + 1).drop_last() =~= ps@.take(i as int));
            assert(ps@.take(i + 1).last() == ps@[i as int]);
        }
        let p = &ps[i];
        let fixed = match values {
            Some(v) => values_have_key(v, p.key.as_str()),
            None => false,
        };
        if !fixed {
            let mut e = chars_of(p.key.as_str());
            let tag = if p.required {
                chars_of(" [required]")
            } else {
                chars_of(" [optional]")
            };
            e.extend_from_slice(tag.as_slice());
            assert(e@ == p.key@ + if p.required {
                " [required]"@
            } else {
                " [optional]"@
            });
            let ghost before = entries@;
            entries.push(e);
            proof {
                assert(entries@.map_values(|w: Vec<char>| w@) =~= before.map_values(|w: Vec<char>| w@).push(
                    p.key@ + if p.required {
                        " [required]"@
                    } else {
                        " [optional]"@
                    },
                ));
            }
        }
        i = i + 1;
    }
    proof {
        assert(ps@.take(ps@.len() as int) =~= ps@);
    }
    let sep = chars_of(", ");
    let joined = join_chars(&entries, sep.as_slice());
    string_from(joined.as_slice())
}

/// The extensions a subagent keeps: all of them when none were named, none
/// for an empty list, otherwise those named.
pub open spec fn kept_extensions(current: Seq<Seq<char>>, requested: Option<Seq<Seq<char>>>) -> Seq<Seq<char>>
    decreases current.len(),
{
    match requested {
        None => current,
        Some(names) => if names.len() == 0 {
            Seq::empty()
        } else if current.len() == 0 {
            Seq::empty()
        } else {
            let r = kept_extensions(current.drop_last(), requested);
            if names.contains(current.last()) {
                r.push(current.last())
            } else {
                r
            }
        },
    }
}

fn name_listed(names: &Vec<String>, name: &str) -> (r: bool)
    ensures
        r == names@.map_values(|s: String| s@).contains(name@),
{
    let k = chars_of(name);
    let mut i: usize = 0;
    while i < names.len()
        invariant
            i <= names@.len(),
            k@ == name@,
            forall|j: int| 0 <= j < i ==> (#[trigger] names@[j])@ != name@,
        decreases names@.len() - i,
    {
        if eq_chars(chars_of(names[i].as_str()).as_slice(), k.as_slice()) {
            proof {
                assert(names@.map_values(|s: String| s@)[i as int] == name@);
            }
            return true;
        }
        i = i + 1;
    }
    proof {
        let vs = names@.map_values(|s: String| s@);
        if vs.contains(name@) {
            let j = choose|j: int| 0 <= j < vs.len() && vs[j] == name@;
            assert(names@[j]@ == name@);
        }
    }
    false
}

/// The extension names a subagent keeps.
pub fn filter_extensions(current: Vec<String>, requested: Option<&Vec<String>>) -> (r: Vec<String>)
    ensures
        r@.map_values(|s: String| s@) == kept_extensions(current@.map_values(|s: String| s@), match requested {
            Some(n) => Some(n@.map_values(|s: String| s@)),
            None => None,
        }),
{
    let names = match requested {
        None => return current,
        Some(n) => n,
    };
    let ghost req = Some(names@.map_values(|s: String| s@));
    let ghost cv = current@.map_values(|s: String| s@);
    if names.len() == 0 {
        let r: Vec<String> = Vec::new();
        proof {
            assert(r@.map_values(|s: String| s@) =~= Seq::<Seq<char>>::empty());
        }
        return r;
    }
    let mut out: Vec<String> = Vec::new();
    let mut i: usize = 0;
    proof {
        assert(cv.take(0) =~= Seq::<Seq<char>>::empty());
        assert(out@.map_values(|s: String| s@) =~= Seq::<Seq<char>>::empty());
    }
    while i < current.len()
        invariant
            i <= current@.len(),
            names@.len() > 0,
            req == Some(names@.map_values(|s: String| s@)),
            cv == current@.map_values(|s: String| s@),
            out@.map_values(|s: String| s@) == kept_extensions(cv.take(i as int), req),
        decreases current@.len() - i,
    {
        proof {
            assert(cv.take(i + 1).drop_last() =~= cv.take(i as int));
            assert(cv.take(i + 1).last() == cv[i as int]);
        }
        if name_listed(names, current[i].as_str()) {
            let ghost before = out@;
            out.push(current[i].clone());
            proof {
                assert(out@.map_values(|s: String| s@) =~= before.map_values(|s: String| s@).push(cv[i as int]));
            }
        }
        i = i + 1;
    }
    proof {
        assert(cv.take(current@.len() as int) =~= cv);
    }
    out
}

/// Where the model of a subagent with overridden settings comes from.
#[derive(Debug, Clone, PartialEq, Eq)]
pub enum ModelSource {
    /// The model named in the settings
    Explicit(String),
    /// The default model of the overriding provider
    ProviderDefault,
    /// The parent's current model
    Current,
}

/// How a subagent's provider is rebuilt from its settings.
#[derive(Debug, Clone)]
pub struct ProviderOverride {
    /// The provider to create
    pub provider_name: String,
    pub model: ModelSource,
    /// Whether the turn context records the resolved model
    pub record_model_in_turn: bool,
}

/// A settings value trimmed, when not blank.
pub open spec fn override_text(o: Option<Seq<char>>) -> Option<Seq<char>> {
    match o {
        Some(v) => if trim(v).len() > 0 {
            Some(trim(v))
        } else {
            None
        },
        None => None,
    }
}

fn override_value(o: &Option<String>) -> (r: Option<String>)
    ensures
        text_of(r) == override_text(text_of(*o)),
{
    match o {
        Some(v) => {
            let t = trim_chars(chars_of(v.as_str()).as_slice());
            if t.len() > 0 {
                Some(string_from(t.as_slice()))
            } else {
                None
            }
        },
        None => None,
    }
}

/// How the settings of a subagent change its provider; `None` when they change
/// nothing. `current_provider` is the name of the parent's provider.
pub fn plan_provider_override(settings: Option<&SubagentSettings>, current_provider: &str) -> (r: Option<ProviderOverride>)
    ensures
        match settings {
            None => r is None,
            Some(s) => {
                let p = override_text(text_of(s.provider));
                let m = override_text(text_of(s.model));
                if p is None && m is None && !s.has_temperature {
                    r is None
                } else {
                    &&& r is Some
                    &&& r->0.provider_name@ == match p {
                        Some(x) => x,
                        None => current_provider@,
                    }
                    &&& match m {
                        Some(x) => r->0.model matches ModelSource::Explicit(n) && n@ == x,
                        None => if p is Some {
                            r->0.model == ModelSource::ProviderDefault
                        } else {
                            r->0.model == ModelSource::Current
                        },
                    }
                    &&& r->0.record_model_in_turn == (p is Some || m is Some)
                }
            },
        },
{
    let s = match settings {
        None => return None,
        Some(s) => s,
    };
    let provider = override_value(&s.provider);
    let model = override_value(&s.model);
    if provider.is_none() && model.is_none() && !s.has_temperature {
        return None;
    }
    let record = provider.is_some() || model.is_some();
    let model_source = match model {
        Some(m) => ModelSource::Explicit(m),
        None => if provider.is_some() {
            ModelSource::ProviderDefault
        } else {
            ModelSource::Current
        },
    };
    let provider_name = match provider {
        Some(p) => p,
        None => String::from_str(current_provider),
    };
    Some(ProviderOverride { provider_name, model: model_source, record_model_in_turn: record })
}

fn schema_entry(key: &str, value: crate::json::JsonValue) -> (r: (String, crate::json::JsonValue))
    ensures
        r.0@ == key@,
        r.1 == value,
{
    (String::from_str(key), value)
}

fn typed_field(t: &str, description: &str) -> (r: crate::json::JsonValue)
    ensures
        json_view(r) == typed_view(t@, description@),
{
    let r = json_object(vec![schema_entry("type", json_text(t)), schema_entry("description", json_text(description))]);
    proof {
        assert(json_view(r)->Object_0 =~= typed_view(t@, description@)->Object_0);
    }
    r
}

/// The JSON schema of the subagent tool's input, whole.
pub open spec fn subagent_schema_view() -> JsonView {
    JsonView::Object(seq![
        ("type"@, text_view("object"@)),
        ("properties"@, JsonView::Object(seq![
            ("instructions"@, typed_view("string"@, "Instructions for the subagent. Required for ad-hoc tasks. For predefined tasks, adds additional context."@)),
            ("subrecipe"@, typed_view("string"@, "Name of a predefined subrecipe to run."@)),
            ("role_hint"@, typed_view("string"@, "Optional role or display label for the subagent, for example 'planner' or 'Image #1'."@)),
            ("parameters"@, JsonView::Object(seq![
                ("type"@, text_view("object"@)),
                ("additionalProperties"@, JsonView::Bool(true)),
                ("description"@, text_view("Parameters for the subrecipe. Only valid when 'subrecipe' is specified."@)),
            ])),
            ("extensions"@, JsonView::Object(seq![
                ("type"@, text_view("array"@)),
                ("items"@, JsonView::Object(seq![("type"@, text_view("string"@))])),
                ("description"@, text_view("Extensions to enable. Omit to inherit all, empty array for none."@)),
            ])),
            ("settings"@, JsonView::Object(seq![
                ("type"@, text_view("object"@)),
                ("properties"@, JsonView::Object(seq![
                    ("provider"@, typed_view("string"@, "Override LLM provider"@)),
                    ("model"@, typed_view("string"@, "Override model"@)),
                    ("temperature"@, typed_view("number"@, "Override temperature"@)),
                ])),
                ("description"@, text_view("Override model/provider settings."@)),
            ])),
            ("summary"@, JsonView::Object(seq![
                ("type"@, text_view("boolean"@)),
                ("default"@, JsonView::Bool(true)),
                ("description"@, text_view("If true (default), return only the subagent's final summary."@)),
            ])),
            ("images"@, JsonView::Object(seq![
                ("type"@, text_view("array"@)),
                ("items"@, JsonView::Object(seq![
                    ("type"@, text_view("object"@)),
                    ("properties"@, JsonView::Object(seq![
                        ("data"@, typed_view("string"@, "Base64 encoded image data"@)),
                        ("mime_type"@, typed_view("string"@, "MIME type of the image"@)),
                    ])),
                    ("required"@, JsonView::Array(seq![text_view("data"@), text_view("mime_type"@)])),
                ])),
                ("description"@, text_view("Images to include in the subagent task for multimodal analysis."@)),
            ])),
        ])),
    ])
}

/// The JSON schema of the tool's input (see `subagent_schema_view`):
/// `instructions`, `subrecipe`, `role_hint`, `parameters`, `extensions`,
/// `settings`, `summary` and `images`, in this order.
pub fn subagent_input_schema() -> (r: crate::json::JsonValue)
    ensures
        json_view(r) == subagent_schema_view(),
{
    let ghost pv = subagent_schema_view()->Object_0[1].1->Object_0;
    let string_items = json_object(vec![schema_entry("type", json_text("string"))]);
    let settings_props = json_object(vec![
        schema_entry("provider", typed_field("string", "Override LLM provider")),
        schema_entry("model", typed_field("string", "Override model")),
        schema_entry("temperature", typed_field("number", "Override temperature")),
    ]);
    let image_props = json_object(vec![
        schema_entry("data", typed_field("string", "Base64 encoded image data")),
        schema_entry("mime_type", typed_field("string", "MIME type of the image")),
    ]);
    let image_required = json_array(vec![json_text("data"), json_text("mime_type")]);
    let image_item = json_object(vec![
        schema_entry("type", json_text("object")),
        schema_entry("properties", image_props),
        schema_entry("required", image_required),
    ]);
    proof {
        assert(json_view(string_items)->Object_0 =~= pv[4].1->Object_0[1].1->Object_0);
        assert(json_view(settings_props)->Object_0 =~= pv[5].1->Object_0[1].1->Object_0);
        assert(json_view(image_props)->Object_0 =~= pv[7].1->Object_0[1].1->Object_0[1].1->Object_0);
        assert(json_view(image_required)->Array_0 =~= pv[7].1->Object_0[1].1->Object_0[2].1->Array_0);
        assert(json_view(image_item)->Object_0 =~= pv[7].1->Object_0[1].1->Object_0);
    }
    let parameters = json_object(vec![
        schema_entry("type", json_text("object")),
        schema_entry("additionalProperties", JsonValue::Bool(true)),
        schema_entry("description", json_text("Parameters for the subrecipe. Only valid when 'subrecipe' is specified.")),
    ]);
    let extensions = json_object(vec![
        schema_entry("type", json_text("array")),
        schema_entry("items", string_items),
        schema_entry("description", json_text("Extensions to enable. Omit to inherit all, empty array for none.")),
    ]);
    let settings = json_object(vec![
        schema_entry("type", json_text("object")),
        schema_entry("properties", settings_props),
        schema_entry("description", json_text("Override model/provider settings.")),
    ]);
    let summary = json_object(vec![
        schema_entry("type", json_text("boolean")),
        schema_entry("default", JsonValue::Bool(true)),
        schema_entry("description", json_text("If true (default), return only the subagent's final summary.")),
    ]);
    let images = json_object(vec![
        schema_entry("type", json_text("array")),
        schema_entry("items", image_item),
        schema_entry("description", json_text("Images to include in the subagent task for multimodal analysis.")),
    ]);
    proof {
        assert(json_view(parameters)->Object_0 =~= pv[3].1->Object_0);
        assert(json_view(extensions)->Object_0 =~= pv[4].1->Object_0);
        assert(json_view(settings)->Object_0 =~= pv[5].1->Object_0);
        assert(json_view(summary)->Object_0 =~= pv[6].1->Object_0);
        assert(json_view(images)->Object_0 =~= pv[7].1->Object_0);
    }
    let props = json_object(vec![
        schema_entry("instructions", typed_field("string", "Instructions for the subagent. Required for ad-hoc tasks. For predefined tasks, adds additional context.")),
        schema_entry("subrecipe", typed_field("string", "Name of a predefined subrecipe to run.")),
        schema_entry("role_hint", typed_field("string", "Optional role or display label for the subagent, for example 'planner' or 'Image #1'.")),
        schema_entry("parameters", parameters),
        schema_entry("extensions", extensions),
        schema_entry("settings", settings),
        schema_entry("summary", summary),
        schema_entry("images", images),
    ]);
    let r = json_object(vec![schema_entry("type", json_text("object")), schema_entry("properties", props)]);
    proof {
        assert(json_view(props)->Object_0 =~= pv);
        assert(json_view(r)->Object_0 =~= subagent_schema_view()->Object_0);
    }
    r
}

/// The `subagent` tool as offered to the model: its name, description and input schema.
pub struct SubagentTool {
    pub name: String,
    pub description: String,
    pub input_schema: crate::json::JsonValue,
}

/// The `subagent` tool for these subrecipes; `params_info[i]` describes the
/// open parameters of `sub_recipes[i]` (see `build_tool_description`); its
/// input schema is `subagent_input_schema`'s.
pub fn create_subagent_tool(sub_recipes: &[SubRecipe], params_info: &[String]) -> (r: SubagentTool)
    requires
        params_info@.len() == sub_recipes@.len(),
    ensures
        r.name@ == SUBAGENT_TOOL_NAME@,
        r.description@ == tool_description(sub_recipes@, params_info@.map_values(|s: String| s@)),
        json_view(r.input_schema) == subagent_schema_view(),
{
    let description = build_tool_description(sub_recipes, params_info);
    SubagentTool { name: String::from_str(SUBAGENT_TOOL_NAME), description, input_schema: subagent_input_schema() }
}

} // verus!
