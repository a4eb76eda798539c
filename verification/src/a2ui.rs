//! The data types of the A2UI protocol that the agent builds and reads:
//! component options, data bindings, child lists and surface messages.

use vstd::prelude::*;
use crate::json::{JsonValue, JsonView, json_view, json_views, entry_views, lemma_array_view, lemma_object_view};
use crate::text::{decimal, u64_to_string};

verus! {

/// Text styles.
#[derive(Debug, Clone, Copy, PartialEq, Eq, Structural)]
pub enum TextVariant {
    H1,
    H2,
    H3,
    H4,
    H5,
    Caption,
    Body,
}

/// How an image fills its box.
#[derive(Debug, Clone, Copy, PartialEq, Eq, Structural)]
pub enum ImageFit {
    Contain,
    Cover,
    Fill,
    /// Shown at its own size (`none` in the protocol)
    Unscaled,
    ScaleDown,
}

/// Image sizes and roles.
#[derive(Debug, Clone, Copy, PartialEq, Eq, Structural)]
pub enum ImageVariant {
    Icon,
    Avatar,
    SmallFeature,
    MediumFeature,
    LargeFeature,
    Header,
}

/// The built-in icons.
#[derive(Debug, Clone, Copy, PartialEq, Eq, Structural)]
pub enum PresetIcon {
    AccountCircle,
    Add,
    ArrowBack,
    ArrowForward,
    AttachFile,
    CalendarToday,
    Call,
    Camera,
    Check,
    Close,
    Delete,
    Download,
    Edit,
    Event,
    Error,
    FastForward,
    Favorite,
    FavoriteOff,
    Folder,
    Help,
    Home,
    Info,
    LocationOn,
    Lock,
    LockOpen,
    Mail,
    Menu,
    MoreVert,
    MoreHoriz,
    NotificationsOff,
    Notifications,
    Pause,
    Payment,
    Person,
    Phone,
    Photo,
    Play,
    Print,
    Refresh,
    Rewind,
    Search,
    Send,
    Settings,
    Share,
    ShoppingCart,
    SkipNext,
    SkipPrevious,
    Star,
    StarHalf,
    StarOff,
    Stop,
    Upload,
    Visibility,
    VisibilityOff,
    VolumeDown,
    VolumeMute,
    VolumeOff,
    VolumeUp,
    Warning,
}

/// Main-axis alignment of a row or column.
#[derive(Debug, Clone, Copy, PartialEq, Eq, Structural)]
pub enum JustifyContent {
    Start,
    Center,
    End,
    SpaceBetween,
    SpaceAround,
    SpaceEvenly,
    Stretch,
}

/// Cross-axis alignment.
#[derive(Debug, Clone, Copy, PartialEq, Eq, Structural)]
pub enum AlignItems {
    Start,
    Center,
    End,
    Stretch,
}

/// The direction a list runs.
#[derive(Debug, Clone, Copy, PartialEq, Eq, Structural)]
pub enum ListDirection {
    Vertical,
    Horizontal,
}

/// The direction of a divider.
#[derive(Debug, Clone, Copy, PartialEq, Eq, Structural)]
pub enum DividerAxis {
    Horizontal,
    Vertical,
}

/// Button styles.
#[derive(Debug, Clone, Copy, PartialEq, Eq, Structural)]
pub enum ButtonVariant {
    Primary,
    Borderless,
}

/// Kinds of text field.
#[derive(Debug, Clone, Copy, PartialEq, Eq, Structural)]
pub enum TextFieldVariant {
    ShortText,
    LongText,
    Number,
    Obscured,
}

/// Single or multiple choice.
#[derive(Debug, Clone, Copy, PartialEq, Eq, Structural)]
pub enum ChoicePickerVariant {
    MultipleSelection,
    MutuallyExclusive,
}

/// What a function call returns.
#[derive(Debug, Clone, Copy, PartialEq, Eq, Structural)]
pub enum ReturnType {
    String,
    Number,
    Boolean,
    Array,
    Object,
    Any,
    Void,
}

/// An icon: a preset one, or a custom one by the path of its image.
#[derive(Debug, Clone, PartialEq, Eq)]
pub enum IconName {
    Preset(PresetIcon),
    Custom { path: String },
}

/// A reference to a value of the data model, by its JSON Pointer path.
#[derive(Debug, Clone, PartialEq, Eq)]
pub struct DataBinding {
    pub path: String,
}

/// A component's children: a fixed list of component ids, or a template
/// repeated over a list of the data model.
#[derive(Debug, Clone, PartialEq, Eq)]
pub enum ChildList {
    Static(Vec<String>),
    Template(ChildTemplate),
}

/// A child template: the component repeated, and the data model list it runs over.
#[derive(Debug, Clone, PartialEq, Eq)]
pub struct ChildTemplate {
    pub component_id: String,
    pub path: String,
}

/// A surface's theme.
#[derive(Debug, Clone, PartialEq, Eq)]
pub struct Theme {
    pub primary_color: Option<String>,
    pub icon_url: Option<String>,
    pub agent_display_name: Option<String>,
}

impl Theme {
    /// A theme that sets nothing.
    pub fn new() -> (r: Self)
        ensures
            r.primary_color is None && r.icon_url is None && r.agent_display_name is None,
    {
        Theme { primary_color: None, icon_url: None, agent_display_name: None }
    }
}

/// The message that creates a surface.
#[derive(Debug, Clone, PartialEq, Eq)]
pub struct CreateSurface {
    pub surface_id: String,
    pub catalog_id: String,
    pub theme: Option<Theme>,
    pub send_data_model: Option<bool>,
}

/// The message that deletes a surface.
#[derive(Debug, Clone, PartialEq, Eq)]
pub struct DeleteSurface {
    pub surface_id: String,
}

/// What kind of error a client reports.
#[derive(Debug, Clone, Copy, PartialEq, Eq, Structural)]
pub enum ErrorCode {
    /// `VALIDATION_FAILED`
    ValidationFailed,
    /// Any other code
    Other,
}

impl ErrorCode {
    /// The code as the protocol writes it (any other code is read as `Other`).
    pub fn from_wire(code: &str) -> (r: Self)
        ensures
            r == (if code@ == "VALIDATION_FAILED"@ { ErrorCode::ValidationFailed } else { ErrorCode::Other }),
    {
        if crate::text::str_eq(code, "VALIDATION_FAILED") {
            ErrorCode::ValidationFailed
        } else {
            ErrorCode::Other
        }
    }
}

/// An error a client reports about a surface; `path` points at the value that
/// failed validation.
#[derive(Debug, Clone, PartialEq, Eq)]
pub struct ErrorMessage {
    pub code: ErrorCode,
    pub surface_id: String,
    pub message: String,
    pub path: Option<String>,
}

/// A call of one of the catalog's functions.
#[derive(Debug, PartialEq)]
pub struct FunctionCall {
    /// The function's name
    pub call: String,
    pub args: Option<JsonValue>,
    pub return_type: Option<ReturnType>,
}

/// A text: given, read from the data model, or computed.
#[derive(Debug, PartialEq)]
pub enum DynamicString {
    Literal(String),
    Binding(DataBinding),
    Function(FunctionCall),
}

/// A truth value: given, read from the data model, or computed.
#[derive(Debug, PartialEq)]
pub enum DynamicBoolean {
    Literal(bool),
    Binding(DataBinding),
    Function(FunctionCall),
}

/// A return type as the protocol writes it.
pub open spec fn return_type_name(t: ReturnType) -> Seq<char> {
    match t {
        ReturnType::String => "string"@,
        ReturnType::Number => "number"@,
        ReturnType::Boolean => "boolean"@,
        ReturnType::Array => "array"@,
        ReturnType::Object => "object"@,
        ReturnType::Any => "any"@,
        ReturnType::Void => "void"@,
    }
}

/// A function call as JSON: `call`, then `args` and `returnType` where set.
pub open spec fn call_view(f: FunctionCall) -> JsonView {
    JsonView::Object(
        seq![("call"@, JsonView::String(f.call@))] + match f.args {
            Some(a) => seq![("args"@, json_view(a))],
            None => seq![],
        } + match f.return_type {
            Some(t) => seq![("returnType"@, JsonView::String(return_type_name(t)))],
            None => seq![],
        },
    )
}

/// A binding as JSON: its `path`.
pub open spec fn binding_view(b: DataBinding) -> JsonView {
    JsonView::Object(seq![("path"@, JsonView::String(b.path@))])
}

/// A dynamic text as JSON: the text itself, the binding, or the call.
pub open spec fn dynamic_string_view(d: DynamicString) -> JsonView {
    match d {
        DynamicString::Literal(s) => JsonView::String(s@),
        DynamicString::Binding(b) => binding_view(b),
        DynamicString::Function(f) => call_view(f),
    }
}

/// A dynamic truth value as JSON: the value itself, the binding, or the call.
pub open spec fn dynamic_boolean_view(d: DynamicBoolean) -> JsonView {
    match d {
        DynamicBoolean::Literal(b) => JsonView::Bool(b),
        DynamicBoolean::Binding(b) => binding_view(b),
        DynamicBoolean::Function(f) => call_view(f),
    }
}

fn return_type_text(t: ReturnType) -> (r: &'static str)
    ensures
        r@ == return_type_name(t),
{
    match t {
        ReturnType::String => "string",
        ReturnType::Number => "number",
        ReturnType::Boolean => "boolean",
        ReturnType::Array => "array",
        ReturnType::Object => "object",
        ReturnType::Any => "any",
        ReturnType::Void => "void",
    }
}

fn json_object(entries: Vec<(String, JsonValue)>) -> (r: JsonValue)
    ensures
        r == JsonValue::Object(entries),
        json_view(r) == JsonView::Object(entries@.map_values(|e: (String, JsonValue)| (e.0@, json_view(e.1)))),
{
    proof {
        lemma_object_view(entries@);
        assert(entry_views(entries@, entries@.len()) =~= entries@.map_values(|e: (String, JsonValue)| (e.0@, json_view(e.1))));
    }
    JsonValue::Object(entries)
}

/// A function call as JSON.
pub fn function_call_json(f: FunctionCall) -> (r: JsonValue)
    ensures
        json_view(r) == call_view(f),
{
    let ghost fv = f;
    let FunctionCall { call, args, return_type } = f;
    let mut entries: Vec<(String, JsonValue)> = Vec::new();
    entries.push((String::from_str("call"), JsonValue::String(call)));
    match args {
        Some(a) => {
            entries.push((String::from_str("args"), a));
        },
        None => {},
    }
    match return_type {
        Some(t) => {
            entries.push((String::from_str("returnType"), JsonValue::String(String::from_str(return_type_text(t)))));
        },
        None => {},
    }
    let r = json_object(entries);
    proof {
        let es = entries@.map_values(|e: (String, JsonValue)| (e.0@, json_view(e.1)));
        assert(es =~= seq![("call"@, JsonView::String(fv.call@))] + match fv.args {
            Some(a) => seq![("args"@, json_view(a))],
            None => seq![],
        } + match fv.return_type {
            Some(t) => seq![("returnType"@, JsonView::String(return_type_name(t)))],
            None => seq![],
        });
    }
    r
}

fn binding_json(b: DataBinding) -> (r: JsonValue)
    ensures
        json_view(r) == binding_view(b),
{
    let ghost bv = b;
    let mut entries: Vec<(String, JsonValue)> = Vec::new();
    entries.push((String::from_str("path"), JsonValue::String(b.path)));
    let r = json_object(entries);
    proof {
        assert(entries@.map_values(|e: (String, JsonValue)| (e.0@, json_view(e.1))) =~= seq![("path"@, JsonView::String(bv.path@))]);
    }
    r
}

/// A dynamic text as JSON.
pub fn dynamic_string_json(d: DynamicString) -> (r: JsonValue)
    ensures
        json_view(r) == dynamic_string_view(d),
{
    match d {
        DynamicString::Literal(s) => JsonValue::String(s),
        DynamicString::Binding(b) => binding_json(b),
        DynamicString::Function(f) => function_call_json(f),
    }
}

/// A dynamic truth value as JSON.
pub fn dynamic_boolean_json(d: DynamicBoolean) -> (r: JsonValue)
    ensures
        json_view(r) == dynamic_boolean_view(d),
{
    match d {
        DynamicBoolean::Literal(b) => JsonValue::Bool(b),
        DynamicBoolean::Binding(b) => binding_json(b),
        DynamicBoolean::Function(f) => function_call_json(f),
    }
}

/// A call of `name` with these arguments, returning `t`.
pub open spec fn is_call(f: FunctionCall, name: Seq<char>, args: Seq<(Seq<char>, JsonView)>, t: ReturnType) -> bool {
    &&& f.call@ == name
    &&& f.return_type == Some(t)
    &&& f.args matches Some(a) && json_view(a) == JsonView::Object(args)
}

fn make_call(name: &str, entries: Vec<(String, JsonValue)>, t: ReturnType) -> (r: FunctionCall)
    ensures
        is_call(r, name@, entries@.map_values(|e: (String, JsonValue)| (e.0@, json_view(e.1))), t),
{
    FunctionCall { call: String::from_str(name), args: Some(json_object(entries)), return_type: Some(t) }
}

/// `required`: whether the text is given.
pub fn required(value: DynamicString) -> (r: FunctionCall)
    ensures
        is_call(r, "required"@, seq![("value"@, dynamic_string_view(value))], ReturnType::Boolean),
{
    let ghost vv = dynamic_string_view(value);
    let v = dynamic_string_json(value);
    let entries = vec![(String::from_str("value"), v)];
    proof {
        assert(entries@.map_values(|e: (String, JsonValue)| (e.0@, json_view(e.1))) =~= seq![("value"@, vv)]);
    }
    make_call("required", entries, ReturnType::Boolean)
}

/// `regex`: whether the text matches the pattern.
pub fn regex(value: DynamicString, pattern: &str) -> (r: FunctionCall)
    ensures
        is_call(
            r,
            "regex"@,
            seq![("value"@, dynamic_string_view(value)), ("pattern"@, JsonView::String(pattern@))],
            ReturnType::Boolean,
        ),
{
    let ghost vv = dynamic_string_view(value);
    let v = dynamic_string_json(value);
    let entries = vec![(String::from_str("value"), v), (String::from_str("pattern"), JsonValue::String(String::from_str(pattern)))];
    proof {
        assert(entries@.map_values(|e: (String, JsonValue)| (e.0@, json_view(e.1))) =~= seq![
            ("value"@, vv),
            ("pattern"@, JsonView::String(pattern@)),
        ]);
    }
    make_call("regex", entries, ReturnType::Boolean)
}

/// A bound of `length` as JSON, where given.
pub open spec fn bound_entry(name: Seq<char>, b: Option<u32>) -> Seq<(Seq<char>, JsonView)> {
    match b {
        Some(n) => seq![(name, JsonView::Number(decimal(n as nat)))],
        None => seq![],
    }
}

/// `length`: whether the text's length lies within the bounds given.
pub fn length(value: DynamicString, min: Option<u32>, max: Option<u32>) -> (r: FunctionCall)
    ensures
        is_call(
            r,
            "length"@,
            seq![("value"@, dynamic_string_view(value))] + bound_entry("min"@, min) + bound_entry("max"@, max),
            ReturnType::Boolean,
        ),
{
    let ghost vv = dynamic_string_view(value);
    let v = dynamic_string_json(value);
    let mut entries = vec![(String::from_str("value"), v)];
    match min {
        Some(n) => {
            entries.push((String::from_str("min"), JsonValue::Number(u64_to_string(n as u64))));
        },
        None => {},
    }
    match max {
        Some(n) => {
            entries.push((String::from_str("max"), JsonValue::Number(u64_to_string(n as u64))));
        },
        None => {},
    }
    proof {
        assert(entries@.map_values(|e: (String, JsonValue)| (e.0@, json_view(e.1))) =~= seq![("value"@, vv)] + bound_entry(
            "min"@,
            min,
        ) + bound_entry("max"@, max));
    }
    make_call("length", entries, ReturnType::Boolean)
}

/// `email`: whether the text is an e-mail address.
pub fn email(value: DynamicString) -> (r: FunctionCall)
    ensures
        is_call(r, "email"@, seq![("value"@, dynamic_string_view(value))], ReturnType::Boolean),
{
    let ghost vv = dynamic_string_view(value);
    let v = dynamic_string_json(value);
    let entries = vec![(String::from_str("value"), v)];
    proof {
        assert(entries@.map_values(|e: (String, JsonValue)| (e.0@, json_view(e.1))) =~= seq![("value"@, vv)]);
    }
    make_call("email", entries, ReturnType::Boolean)
}

/// `formatString`: the text with its placeholders filled in.
pub fn format_string(value: DynamicString) -> (r: FunctionCall)
    ensures
        is_call(r, "formatString"@, seq![("value"@, dynamic_string_view(value))], ReturnType::String),
{
    let ghost vv = dynamic_string_view(value);
    let v = dynamic_string_json(value);
    let entries = vec![(String::from_str("value"), v)];
    proof {
        assert(entries@.map_values(|e: (String, JsonValue)| (e.0@, json_view(e.1))) =~= seq![("value"@, vv)]);
    }
    make_call("formatString", entries, ReturnType::String)
}

/// `formatDate`: the date written with a Unicode TR35 pattern.
pub fn format_date(value: DynamicString, format: &str) -> (r: FunctionCall)
    ensures
        is_call(
            r,
            "formatDate"@,
            seq![("value"@, dynamic_string_view(value)), ("format"@, JsonView::String(format@))],
            ReturnType::String,
        ),
{
    let ghost vv = dynamic_string_view(value);
    let v = dynamic_string_json(value);
    let entries = vec![(String::from_str("value"), v), (String::from_str("format"), JsonValue::String(String::from_str(format)))];
    proof {
        assert(entries@.map_values(|e: (String, JsonValue)| (e.0@, json_view(e.1))) =~= seq![
            ("value"@, vv),
            ("format"@, JsonView::String(format@)),
        ]);
    }
    make_call("formatDate", entries, ReturnType::String)
}

fn booleans_json(values: Vec<DynamicBoolean>) -> (r: JsonValue)
    ensures
        json_view(r) == JsonView::Array(values@.map_values(|b: DynamicBoolean| dynamic_boolean_view(b))),
{
    let ghost all = values@;
    let mut rest = values;
    let mut items: Vec<JsonValue> = Vec::new();
    while rest.len() > 0
        invariant
            items@.len() + rest@.len() == all.len(),
            rest@ == all.skip(items@.len() as int),
            forall|i: int| 0 <= i < items@.len() ==> json_view(#[trigger] items@[i]) == dynamic_boolean_view(all[i]),
        decreases rest@.len(),
    {
        let b = rest.remove(0);
        proof {
            assert(b == all[items@.len() as int]);
            assert(all.skip(items@.len() + 1 as int) =~= all.skip(items@.len() as int).skip(1));
        }
        let j = dynamic_boolean_json(b);
        items.push(j);
    }
    proof {
        lemma_array_view(items@);
        assert(json_views(items@, items@.len()) =~= all.map_values(|b: DynamicBoolean| dynamic_boolean_view(b)));
    }
    JsonValue::Array(items)
}

/// `and`: whether every value holds.
pub fn and(values: Vec<DynamicBoolean>) -> (r: FunctionCall)
    ensures
        is_call(
            r,
            "and"@,
            seq![("values"@, JsonView::Array(values@.map_values(|b: DynamicBoolean| dynamic_boolean_view(b))))],
            ReturnType::Boolean,
        ),
{
    let ghost vs = JsonView::Array(values@.map_values(|b: DynamicBoolean| dynamic_boolean_view(b)));
    let a = booleans_json(values);
    let entries = vec![(String::from_str("values"), a)];
    proof {
        assert(entries@.map_values(|e: (String, JsonValue)| (e.0@, json_view(e.1))) =~= seq![("values"@, vs)]);
    }
    make_call("and", entries, ReturnType::Boolean)
}

/// `or`: whether some value holds.
pub fn or(values: Vec<DynamicBoolean>) -> (r: FunctionCall)
    ensures
        is_call(
            r,
            "or"@,
            seq![("values"@, JsonView::Array(values@.map_values(|b: DynamicBoolean| dynamic_boolean_view(b))))],
            ReturnType::Boolean,
        ),
{
    let ghost vs = JsonView::Array(values@.map_values(|b: DynamicBoolean| dynamic_boolean_view(b)));
    let a = booleans_json(values);
    let entries = vec![(String::from_str("values"), a)];
    proof {
        assert(entries@.map_values(|e: (String, JsonValue)| (e.0@, json_view(e.1))) =~= seq![("values"@, vs)]);
    }
    make_call("or", entries, ReturnType::Boolean)
}

/// `not`: the negation of the value.
pub fn not(value: DynamicBoolean) -> (r: FunctionCall)
    ensures
        is_call(r, "not"@, seq![("value"@, dynamic_boolean_view(value))], ReturnType::Boolean),
{
    let ghost vv = dynamic_boolean_view(value);
    let v = dynamic_boolean_json(value);
    let entries = vec![(String::from_str("value"), v)];
    proof {
        assert(entries@.map_values(|e: (String, JsonValue)| (e.0@, json_view(e.1))) =~= seq![("value"@, vv)]);
    }
    make_call("not", entries, ReturnType::Boolean)
}

/// `openUrl`: open the URL on the client.
pub fn open_url(url: &str) -> (r: FunctionCall)
    ensures
        is_call(r, "openUrl"@, seq![("url"@, JsonView::String(url@))], ReturnType::Void),
{
    let entries = vec![(String::from_str("url"), JsonValue::String(String::from_str(url)))];
    proof {
        assert(entries@.map_values(|e: (String, JsonValue)| (e.0@, json_view(e.1))) =~= seq![("url"@, JsonView::String(url@))]);
    }
    make_call("openUrl", entries, ReturnType::Void)
}

} // verus!

