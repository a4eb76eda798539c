//! The `ask` tool: questions put to the user, the parsing of the tool's input,
//! and the normalisation of whatever the user answered.

use vstd::prelude::*;
use crate::json::{JsonValue, JsonView, member, json_view, json_object, json_array, json_text, text_view};
use crate::text::{trim, trim_str, chars_of, string_from, chars_lt, seq_lt, to_lowercase, lowercase, join, join_chars, u64_to_string, decimal};
use crate::tool::{ToolError, ToolResult, PermissionCheckResult};

verus! {

/// Default time the user has to answer, in seconds.
pub const DEFAULT_ASK_TIMEOUT_SECS: u64 = 300;

/// At most this many questions per request, and options per question.
pub const MAX_ASK_ENTRIES: usize = 4;

pub const MSG_EMPTY_OPTION: &'static str = "Option value/label cannot both be empty";
pub const MSG_EMPTY_QUESTION: &'static str = "Question text cannot be empty";
pub const MSG_TOO_MANY_OPTIONS: &'static str = "Question options cannot exceed 4 choices";
pub const MSG_NO_QUESTION: &'static str = "At least one question is required";
pub const MSG_TOO_MANY_QUESTIONS: &'static str = "Questions cannot exceed 4 entries";
pub const MSG_MISSING_QUESTION: &'static str = "Missing required parameter: question or questions";
pub const MSG_PARSE_PREFIX: &'static str = "Failed to parse ask input: ";

/// The text of an optional string.
pub open spec fn opt_chars(o: Option<String>) -> Option<Seq<char>> {
    match o {
        Some(s) => Some(s@),
        None => None,
    }
}

/// A predefined answer the user may pick.
#[derive(Debug)]
pub struct AskOption {
    /// The value returned when this option is picked
    pub value: String,
    /// Display label (the value is shown when there is none)
    pub label: Option<String>,
    pub description: Option<String>,
    pub preview: Option<String>,
}

/// An option as plain text.
pub struct AskOptionView {
    pub value: Seq<char>,
    pub label: Option<Seq<char>>,
    pub description: Option<Seq<char>>,
    pub preview: Option<Seq<char>>,
}

impl View for AskOption {
    type V = AskOptionView;

    open spec fn view(&self) -> AskOptionView {
        AskOptionView {
            value: self.value@,
            label: opt_chars(self.label),
            description: opt_chars(self.description),
            preview: opt_chars(self.preview),
        }
    }
}

/// What an option shows: its label, else its value.
pub open spec fn option_display(o: AskOptionView) -> Seq<char> {
    match o.label {
        Some(l) => l,
        None => o.value,
    }
}

/// What is wrong with an option, if anything.
pub open spec fn option_problem(o: AskOptionView) -> Option<Seq<char>> {
    if trim(o.value).len() == 0 && trim(option_display(o)).len() == 0 {
        Some(MSG_EMPTY_OPTION@)
    } else {
        None
    }
}

/// The problem of the first faulty option.
pub open spec fn first_option_problem(os: Seq<AskOptionView>) -> Option<Seq<char>>
    decreases os.len(),
{
    if os.len() == 0 {
        None
    } else {
        match first_option_problem(os.drop_last()) {
            Some(m) => Some(m),
            None => option_problem(os.last()),
        }
    }
}

fn invalid_params(msg: &str) -> (e: ToolError)
    ensures
        e matches ToolError::InvalidParams(m) && m@ == msg@,
{
    ToolError::InvalidParams(String::from_str(msg))
}

impl AskOption {
    /// An option with just a value.
    pub fn new(value: &str) -> (r: Self)
        ensures
            r@ == (AskOptionView { value: value@, label: None, description: None, preview: None }),
    {
        AskOption { value: String::from_str(value), label: None, description: None, preview: None }
    }

    /// An option with a value and a display label.
    pub fn with_label(value: &str, label: &str) -> (r: Self)
        ensures
            r@ == (AskOptionView { value: value@, label: Some(label@), description: None, preview: None }),
    {
        AskOption {
            value: String::from_str(value),
            label: Some(String::from_str(label)),
            description: None,
            preview: None,
        }
    }

    /// The text shown for this option.
    pub fn display(&self) -> (r: &str)
        ensures
            r@ == option_display(self@),
    {
        match &self.label {
            Some(l) => l.as_str(),
            None => self.value.as_str(),
        }
    }

    /// Refuses an option whose value and display text are both blank.
    pub fn validate(&self) -> (r: Result<(), ToolError>)
        ensures
            match option_problem(self@) {
                None => r is Ok,
                Some(m) => r matches Err(ToolError::InvalidParams(t)) && t@ == m,
            },
    {
        let v = trim_str(self.value.as_str());
        let d = trim_str(self.display());
        if v.as_str().is_empty() && d.as_str().is_empty() {
            Err(invalid_params(MSG_EMPTY_OPTION))
        } else {
            Ok(())
        }
    }
}

fn options_problem(options: &Vec<AskOption>) -> (r: Result<(), ToolError>)
    ensures
        match first_option_problem(options@.map_values(|o: AskOption| o@)) {
            None => r is Ok,
            Some(m) => r matches Err(ToolError::InvalidParams(t)) && t@ == m,
        },
{
    let ghost os = options@.map_values(|o: AskOption| o@);
    let mut i: usize = 0;
    while i < options.len()
        invariant
            i <= options@.len(),
            os == options@.map_values(|o: AskOption| o@),
            first_option_problem(os.take(i as int)) is None,
        decreases options@.len() - i,
    {
        proof {
            assert(os.take(i + 1).drop_last() =~= os.take(i as int));
            assert(os.take(i + 1).last() == options@[i as int]@);
        }
        let v = options[i].validate();
        if v.is_err() {
            proof {
                lemma_first_problem_extends(os, i as int + 1);
            }
            return v;
        }
        i = i + 1;
    }
    proof {
        assert(os.take(options@.len() as int) =~= os);
    }
    Ok(())
}

proof fn lemma_first_problem_extends(os: Seq<AskOptionView>, n: int)
    requires
        0 <= n <= os.len(),
        first_option_problem(os.take(n)) is Some,
    ensures
        first_option_problem(os) == first_option_problem(os.take(n)),
    decreases os.len() - n,
{
    if n < os.len() {
        assert(os.take(n + 1).drop_last() =~= os.take(n));
        lemma_first_problem_extends(os, n + 1);
    } else {
        assert(os.take(n) =~= os);
    }
}

/// A question put to the user.
#[derive(Debug)]
pub struct AskQuestion {
    /// The question as shown to the user
    pub question: String,
    /// Optional short header
    pub header: Option<String>,
    /// Predefined answers (none for a free-form question)
    pub options: Vec<AskOption>,
    /// Whether several options may be picked
    pub multi_select: bool,
}

/// A question as plain values.
pub struct AskQuestionView {
    pub question: Seq<char>,
    pub header: Option<Seq<char>>,
    pub options: Seq<AskOptionView>,
    pub multi_select: bool,
}

impl View for AskQuestion {
    type V = AskQuestionView;

    open spec fn view(&self) -> AskQuestionView {
        AskQuestionView {
            question: self.question@,
            header: opt_chars(self.header),
            options: self.options@.map_values(|o: AskOption| o@),
            multi_select: self.multi_select,
        }
    }
}

/// What is wrong with a question, if anything.
pub open spec fn question_problem(q: AskQuestionView) -> Option<Seq<char>> {
    if trim(q.question).len() == 0 {
        Some(MSG_EMPTY_QUESTION@)
    } else if q.options.len() > MAX_ASK_ENTRIES {
        Some(MSG_TOO_MANY_OPTIONS@)
    } else {
        first_option_problem(q.options)
    }
}

/// The problem of the first faulty question.
pub open spec fn first_question_problem(qs: Seq<AskQuestionView>) -> Option<Seq<char>>
    decreases qs.len(),
{
    if qs.len() == 0 {
        None
    } else {
        match first_question_problem(qs.drop_last()) {
            Some(m) => Some(m),
            None => question_problem(qs.last()),
        }
    }
}

/// What is wrong with a request, if anything.
pub open spec fn request_problem(qs: Seq<AskQuestionView>) -> Option<Seq<char>> {
    if qs.len() == 0 {
        Some(MSG_NO_QUESTION@)
    } else if qs.len() > MAX_ASK_ENTRIES {
        Some(MSG_TOO_MANY_QUESTIONS@)
    } else {
        first_question_problem(qs)
    }
}

proof fn lemma_first_question_problem_extends(qs: Seq<AskQuestionView>, n: int)
    requires
        0 <= n <= qs.len(),
        first_question_problem(qs.take(n)) is Some,
    ensures
        first_question_problem(qs) == first_question_problem(qs.take(n)),
    decreases qs.len() - n,
{
    if n < qs.len() {
        assert(qs.take(n + 1).drop_last() =~= qs.take(n));
        lemma_first_question_problem_extends(qs, n + 1);
    } else {
        assert(qs.take(n) =~= qs);
    }
}

impl AskQuestion {
    /// A free-form question.
    pub fn new(question: &str) -> (r: Self)
        ensures
            r@ == (AskQuestionView { question: question@, header: None, options: seq![], multi_select: false }),
    {
        let r = AskQuestion { question: String::from_str(question), header: None, options: Vec::new(), multi_select: false };
        proof {
            assert(r@.options =~= seq![]);
        }
        r
    }

    /// A question with predefined answers.
    pub fn with_options(question: &str, options: Vec<AskOption>) -> (r: Self)
        ensures
            r@ == (AskQuestionView {
                question: question@,
                header: None,
                options: options@.map_values(|o: AskOption| o@),
                multi_select: false,
            }),
    {
        AskQuestion { question: String::from_str(question), header: None, options, multi_select: false }
    }

    /// Refuses a blank question, more than four options, or a faulty option.
    pub fn validate(&self) -> (r: Result<(), ToolError>)
        ensures
            match question_problem(self@) {
                None => r is Ok,
                Some(m) => r matches Err(ToolError::InvalidParams(t)) && t@ == m,
            },
    {
        let t = trim_str(self.question.as_str());
        if t.as_str().is_empty() {
            return Err(invalid_params(MSG_EMPTY_QUESTION));
        }
        if self.options.len() > MAX_ASK_ENTRIES {
            return Err(invalid_params(MSG_TOO_MANY_OPTIONS));
        }
        options_problem(&self.options)
    }
}

/// A request of one or more related questions.
#[derive(Debug)]
pub struct AskRequest {
    pub questions: Vec<AskQuestion>,
}

impl View for AskRequest {
    type V = Seq<AskQuestionView>;

    open spec fn view(&self) -> Seq<AskQuestionView> {
        self.questions@.map_values(|q: AskQuestion| q@)
    }
}

impl AskRequest {
    /// The single-question request of the legacy input format.
    pub fn from_legacy(question: &str, options: Vec<AskOption>) -> (r: Self)
        ensures
            r@ == seq![AskQuestionView {
                question: question@,
                header: None,
                options: options@.map_values(|o: AskOption| o@),
                multi_select: false,
            }],
    {
        let q = AskQuestion::with_options(question, options);
        let mut questions: Vec<AskQuestion> = Vec::new();
        questions.push(q);
        let r = AskRequest { questions };
        proof {
            assert(r@ =~= seq![q@]);
        }
        r
    }

    /// Refuses an empty request, more than four questions, or a faulty question.
    pub fn validate(&self) -> (r: Result<(), ToolError>)
        ensures
            match request_problem(self@) {
                None => r is Ok,
                Some(m) => r matches Err(ToolError::InvalidParams(t)) && t@ == m,
            },
    {
        if self.questions.len() == 0 {
            return Err(invalid_params(MSG_NO_QUESTION));
        }
        if self.questions.len() > MAX_ASK_ENTRIES {
            return Err(invalid_params(MSG_TOO_MANY_QUESTIONS));
        }
        let ghost qs = self@;
        let mut i: usize = 0;
        while i < self.questions.len()
            invariant
                i <= self.questions@.len(),
                qs == self@,
                0 < qs.len() <= MAX_ASK_ENTRIES,
                first_question_problem(qs.take(i as int)) is None,
            decreases self.questions@.len() - i,
        {
            proof {
                assert(qs.take(i + 1).drop_last() =~= qs.take(i as int));
                assert(qs.take(i + 1).last() == self.questions@[i as int]@);
            }
            let v = self.questions[i].validate();
            if v.is_err() {
                proof {
                    assert(first_question_problem(qs.take(i + 1)) == question_problem(self.questions@[i as int]@));
                    lemma_first_question_problem_extends(qs, i as int + 1);
                }
                return v;
            }
            i = i + 1;
        }
        proof {
            assert(qs.take(self.questions@.len() as int) =~= qs);
        }
        Ok(())
    }
}

fn clone_opt(o: &Option<String>) -> (r: Option<String>)
    ensures
        opt_chars(r) == opt_chars(*o),
{
    match o {
        Some(s) => Some(s.clone()),
        None => None,
    }
}

/// An option as written in the tool's input: a bare string, or an object with
/// optional `value`, `label`, `description` and `preview`.
pub enum OptionInputView {
    Text(Seq<char>),
    Fields(Option<Seq<char>>, Option<Seq<char>>, Option<Seq<char>>, Option<Seq<char>>),
}

/// A question as written in the tool's input.
pub struct QuestionInputView {
    pub question: Seq<char>,
    pub header: Option<Seq<char>>,
    pub options: Option<Seq<OptionInputView>>,
    pub multi_select: bool,
}

/// The tool's input: the legacy single-question fields and the `questions` list.
pub struct AskInputView {
    pub question: Option<Seq<char>>,
    pub header: Option<Seq<char>>,
    pub options: Option<Seq<OptionInputView>>,
    pub multi_select: bool,
    pub questions: Option<Seq<QuestionInputView>>,
}

/// An optional text member: `Some(None)` when absent or `null`, `None` when it
/// holds anything but a string.
pub open spec fn text_field(v: JsonValue, key: Seq<char>) -> Option<Option<Seq<char>>> {
    match member(v, key) {
        None => Some(None),
        Some(JsonValue::Null) => Some(None),
        Some(JsonValue::String(s)) => Some(Some(s@)),
        _ => None,
    }
}

/// The multi-select flag, written `multiSelect` or `multi_select` (not both);
/// false when absent, `None` when malformed.
pub open spec fn flag_field(v: JsonValue) -> Option<bool> {
    let a = member(v, "multiSelect"@);
    let b = member(v, "multi_select"@);
    if a is Some && b is Some {
        None
    } else {
        match (if a is Some { a } else { b }) {
            None => Some(false),
            Some(JsonValue::Bool(x)) => Some(x),
            _ => None,
        }
    }
}

/// One option of the input.
pub open spec fn option_input(v: JsonValue) -> Option<OptionInputView> {
    match v {
        JsonValue::String(s) => Some(OptionInputView::Text(s@)),
        JsonValue::Object(_) => {
            let (a, b, c, d) = (text_field(v, "value"@), text_field(v, "label"@), text_field(v, "description"@), text_field(v, "preview"@));
            if a is Some && b is Some && c is Some && d is Some {
                Some(OptionInputView::Fields(a->0, b->0, c->0, d->0))
            } else {
                None
            }
        },
        _ => None,
    }
}

/// A list of options of the input.
pub open spec fn option_inputs(items: Seq<JsonValue>) -> Option<Seq<OptionInputView>>
    decreases items.len(),
{
    if items.len() == 0 {
        Some(seq![])
    } else {
        match option_inputs(items.drop_last()) {
            None => None,
            Some(r) => match option_input(items.last()) {
                None => None,
                Some(o) => Some(r.push(o)),
            },
        }
    }
}

/// The `options` member: `Some(None)` when absent or `null`.
pub open spec fn options_field(v: JsonValue) -> Option<Option<Seq<OptionInputView>>> {
    match member(v, "options"@) {
        None => Some(None),
        Some(JsonValue::Null) => Some(None),
        Some(JsonValue::Array(items)) => match option_inputs(items@) {
            Some(os) => Some(Some(os)),
            None => None,
        },
        _ => None,
    }
}

/// One entry of the `questions` list.
pub open spec fn question_input(v: JsonValue) -> Option<QuestionInputView> {
    match v {
        JsonValue::Object(_) => match member(v, "question"@) {
            Some(JsonValue::String(q)) => {
                let (h, o, f) = (text_field(v, "header"@), options_field(v), flag_field(v));
                if h is Some && o is Some && f is Some {
                    Some(QuestionInputView { question: q@, header: h->0, options: o->0, multi_select: f->0 })
                } else {
                    None
                }
            },
            _ => None,
        },
        _ => None,
    }
}

/// The entries of the `questions` list.
pub open spec fn question_inputs(items: Seq<JsonValue>) -> Option<Seq<QuestionInputView>>
    decreases items.len(),
{
    if items.len() == 0 {
        Some(seq![])
    } else {
        match question_inputs(items.drop_last()) {
            None => None,
            Some(r) => match question_input(items.last()) {
                None => None,
                Some(q) => Some(r.push(q)),
            },
        }
    }
}

/// The `questions` member: `Some(None)` when absent or `null`.
pub open spec fn questions_field(v: JsonValue) -> Option<Option<Seq<QuestionInputView>>> {
    match member(v, "questions"@) {
        None => Some(None),
        Some(JsonValue::Null) => Some(None),
        Some(JsonValue::Array(items)) => match question_inputs(items@) {
            Some(qs) => Some(Some(qs)),
            None => None,
        },
        _ => None,
    }
}

/// The tool's input read from its parameters; `None` when they do not have the
/// expected shape (not an object, or a member of the wrong type).
pub open spec fn ask_input(v: JsonValue) -> Option<AskInputView> {
    match v {
        JsonValue::Object(_) => {
            let (q, h, o, f, qs) = (text_field(v, "question"@), text_field(v, "header"@), options_field(v), flag_field(v), questions_field(v));
            if q is Some && h is Some && o is Some && f is Some && qs is Some {
                Some(AskInputView { question: q->0, header: h->0, options: o->0, multi_select: f->0, questions: qs->0 })
            } else {
                None
            }
        },
        _ => None,
    }
}

/// The option an input entry stands for; an object without `value` takes its
/// label as value.
pub open spec fn option_of(i: OptionInputView) -> AskOptionView {
    match i {
        OptionInputView::Text(s) => AskOptionView { value: s, label: None, description: None, preview: None },
        OptionInputView::Fields(v, l, d, p) => AskOptionView {
            value: match v {
                Some(x) => x,
                None => match l {
                    Some(y) => y,
                    None => Seq::empty(),
                },
            },
            label: l,
            description: d,
            preview: p,
        },
    }
}

/// The options of the input entries, or the problem of the first faulty one.
pub open spec fn convert_options(is: Seq<OptionInputView>) -> Result<Seq<AskOptionView>, Seq<char>>
    decreases is.len(),
{
    if is.len() == 0 {
        Ok(seq![])
    } else {
        match convert_options(is.drop_last()) {
            Err(m) => Err(m),
            Ok(r) => {
                let o = option_of(is.last());
                match option_problem(o) {
                    Some(m) => Err(m),
                    None => Ok(r.push(o)),
                }
            },
        }
    }
}

/// The question of an input entry, or its problem.
pub open spec fn convert_question(qi: QuestionInputView) -> Result<AskQuestionView, Seq<char>> {
    match convert_options(match qi.options { Some(os) => os, None => seq![] }) {
        Err(m) => Err(m),
        Ok(os) => {
            let q = AskQuestionView { question: qi.question, header: qi.header, options: os, multi_select: qi.multi_select };
            match question_problem(q) {
                Some(m) => Err(m),
                None => Ok(q),
            }
        },
    }
}

/// The questions of the input entries, or the problem of the first faulty one.
pub open spec fn convert_questions(qis: Seq<QuestionInputView>) -> Result<Seq<AskQuestionView>, Seq<char>>
    decreases qis.len(),
{
    if qis.len() == 0 {
        Ok(seq![])
    } else {
        match convert_questions(qis.drop_last()) {
            Err(m) => Err(m),
            Ok(r) => match convert_question(qis.last()) {
                Err(m) => Err(m),
                Ok(q) => Ok(r.push(q)),
            },
        }
    }
}

/// The request the input stands for, or the message it is refused with.
pub open spec fn request_of(inp: AskInputView) -> Result<Seq<AskQuestionView>, Seq<char>> {
    let built = match inp.questions {
        Some(qis) => convert_questions(qis),
        None => match inp.question {
            None => Err(MSG_MISSING_QUESTION@),
            Some(q) => match convert_options(match inp.options { Some(os) => os, None => seq![] }) {
                Err(m) => Err(m),
                Ok(os) => Ok(seq![AskQuestionView { question: q, header: inp.header, options: os, multi_select: inp.multi_select }]),
            },
        },
    };
    match built {
        Err(m) => Err(m),
        Ok(qs) => match request_problem(qs) {
            Some(m) => Err(m),
            None => Ok(qs),
        },
    }
}

enum OptionIn {
    Text(String),
    Fields(Option<String>, Option<String>, Option<String>, Option<String>),
}

impl View for OptionIn {
    type V = OptionInputView;

    closed spec fn view(&self) -> OptionInputView {
        match self {
            OptionIn::Text(s) => OptionInputView::Text(s@),
            OptionIn::Fields(a, b, c, d) => OptionInputView::Fields(opt_chars(*a), opt_chars(*b), opt_chars(*c), opt_chars(*d)),
        }
    }
}

struct QuestionIn {
    question: String,
    header: Option<String>,
    options: Option<Vec<OptionIn>>,
    multi_select: bool,
}

pub open spec fn opt_seq_view<T: View>(o: Option<Vec<T>>) -> Option<Seq<T::V>> {
    match o {
        Some(v) => Some(v@.map_values(|x: T| x@)),
        None => None,
    }
}

impl View for QuestionIn {
    type V = QuestionInputView;

    closed spec fn view(&self) -> QuestionInputView {
        QuestionInputView {
            question: self.question@,
            header: opt_chars(self.header),
            options: opt_seq_view(self.options),
            multi_select: self.multi_select,
        }
    }
}

struct AskIn {
    question: Option<String>,
    header: Option<String>,
    options: Option<Vec<OptionIn>>,
    multi_select: bool,
    questions: Option<Vec<QuestionIn>>,
}

impl View for AskIn {
    type V = AskInputView;

    closed spec fn view(&self) -> AskInputView {
        AskInputView {
            question: opt_chars(self.question),
            header: opt_chars(self.header),
            options: opt_seq_view(self.options),
            multi_select: self.multi_select,
            questions: opt_seq_view(self.questions),
        }
    }
}

fn read_text_field(v: &JsonValue, key: &str) -> (r: Option<Option<String>>)
    ensures
        match text_field(*v, key@) {
            None => r is None,
            Some(t) => r is Some && opt_chars(r->0) == t,
        },
{
    match v.get(key) {
        None => Some(None),
        Some(JsonValue::Null) => Some(None),
        Some(JsonValue::String(s)) => Some(Some(s.clone())),
        _ => None,
    }
}

fn read_flag_field(v: &JsonValue) -> (r: Option<bool>)
    ensures
        r == flag_field(*v),
{
    let a = v.get("multiSelect");
    let b = v.get("multi_select");
    proof {
        reveal_strlit("multiSelect");
        reveal_strlit("multi_select");
    }
    if a.is_some() && b.is_some() {
        return None;
    }
    let x = if a.is_some() { a } else { b };
    match x {
        None => Some(false),
        Some(JsonValue::Bool(f)) => Some(*f),
        _ => None,
    }
}

/// An optional text member (see `text_field`).
pub fn read_text_field_pub(v: &JsonValue, key: &str) -> (r: Option<Option<String>>)
    ensures
        match text_field(*v, key@) {
            None => r is None,
            Some(t) => r is Some && opt_chars(r->0) == t,
        },
{
    read_text_field(v, key)
}

fn read_option_input(v: &JsonValue) -> (r: Option<OptionIn>)
    ensures
        match option_input(*v) {
            None => r is None,
            Some(o) => r is Some && r->0@ == o,
        },
{
    match v {
        JsonValue::String(s) => Some(OptionIn::Text(s.clone())),
        JsonValue::Object(_) => {
            let a = read_text_field(v, "value");
            let b = read_text_field(v, "label");
            let c = read_text_field(v, "description");
            let d = read_text_field(v, "preview");
            match (a, b, c, d) {
                (Some(a), Some(b), Some(c), Some(d)) => Some(OptionIn::Fields(a, b, c, d)),
                _ => None,
            }
        },
        _ => None,
    }
}

fn read_option_inputs(items: &Vec<JsonValue>) -> (r: Option<Vec<OptionIn>>)
    ensures
        match option_inputs(items@) {
            None => r is None,
            Some(os) => r is Some && r->0@.map_values(|x: OptionIn| x@) == os,
        },
{
    let mut out: Vec<OptionIn> = Vec::new();
    let mut i: usize = 0;
    while i < items.len()
        invariant
            i <= items@.len(),
            option_inputs(items@.take(i as int)) == Some(out@.map_values(|x: OptionIn| x@)),
        decreases items@.len() - i,
    {
        proof {
            assert(items@.take(i + 1).drop_last() =~= items@.take(i as int));
            assert(items@.take(i + 1).last() == items@[i as int]);
        }
        match read_option_input(&items[i]) {
            None => {
                proof {
                    lemma_option_inputs_none(items@, i as int + 1);
                }
                return None;
            },
            Some(o) => {
                let ghost before = out@;
                out.push(o);
                proof {
                    assert(out@.map_values(|x: OptionIn| x@) =~= before.map_values(|x: OptionIn| x@).push(o@));
                }
            },
        }
        i = i + 1;
    }
    proof {
        assert(items@.take(items@.len() as int) =~= items@);
    }
    Some(out)
}

proof fn lemma_option_inputs_none(items: Seq<JsonValue>, n: int)
    requires
        0 <= n <= items.len(),
        option_inputs(items.take(n)) is None,
    ensures
        option_inputs(items) is None,
    decreases items.len() - n,
{
    if n < items.len() {
        assert(items.take(n + 1).drop_last() =~= items.take(n));
        lemma_option_inputs_none(items, n + 1);
    } else {
        assert(items.take(n) =~= items);
    }
}

proof fn lemma_question_inputs_none(items: Seq<JsonValue>, n: int)
    requires
        0 <= n <= items.len(),
        question_inputs(items.take(n)) is None,
    ensures
        question_inputs(items) is None,
    decreases items.len() - n,
{
    if n < items.len() {
        assert(items.take(n + 1).drop_last() =~= items.take(n));
        lemma_question_inputs_none(items, n + 1);
    } else {
        assert(items.take(n) =~= items);
    }
}

fn read_options_field(v: &JsonValue) -> (r: Option<Option<Vec<OptionIn>>>)
    ensures
        match options_field(*v) {
            None => r is None,
            Some(t) => r is Some && opt_seq_view(r->0) == t,
        },
{
    match v.get("options") {
        None => Some(None),
        Some(JsonValue::Null) => Some(None),
        Some(JsonValue::Array(items)) => match read_option_inputs(items) {
            Some(os) => Some(Some(os)),
            None => None,
        },
        _ => None,
    }
}

fn read_question_input(v: &JsonValue) -> (r: Option<QuestionIn>)
    ensures
        match question_input(*v) {
            None => r is None,
            Some(q) => r is Some && r->0@ == q,
        },
{
    match v {
        JsonValue::Object(_) => match v.get("question") {
            Some(JsonValue::String(q)) => {
                let h = read_text_field(v, "header");
                let o = read_options_field(v);
                let f = read_flag_field(v);
                match (h, o, f) {
                    (Some(h), Some(o), Some(f)) => Some(QuestionIn { question: q.clone(), header: h, options: o, multi_select: f }),
                    _ => None,
                }
            },
            _ => None,
        },
        _ => None,
    }
}

fn read_question_inputs(items: &Vec<JsonValue>) -> (r: Option<Vec<QuestionIn>>)
    ensures
        match question_inputs(items@) {
            None => r is None,
            Some(qs) => r is Some && r->0@.map_values(|x: QuestionIn| x@) == qs,
        },
{
    let mut out: Vec<QuestionIn> = Vec::new();
    let mut i: usize = 0;
    while i < items.len()
        invariant
            i <= items@.len(),
            question_inputs(items@.take(i as int)) == Some(out@.map_values(|x: QuestionIn| x@)),
        decreases items@.len() - i,
    {
        proof {
            assert(items@.take(i + 1).drop_last() =~= items@.take(i as int));
            assert(items@.take(i + 1).last() == items@[i as int]);
        }
        match read_question_input(&items[i]) {
            None => {
                proof {
                    lemma_question_inputs_none(items@, i as int + 1);
                }
                return None;
            },
            Some(q) => {
                let ghost before = out@;
                out.push(q);
                proof {
                    assert(out@.map_values(|x: QuestionIn| x@) =~= before.map_values(|x: QuestionIn| x@).push(q@));
                }
            },
        }
        i = i + 1;
    }
    proof {
        assert(items@.take(items@.len() as int) =~= items@);
    }
    Some(out)
}

fn read_questions_field(v: &JsonValue) -> (r: Option<Option<Vec<QuestionIn>>>)
    ensures
        match questions_field(*v) {
            None => r is None,
            Some(t) => r is Some && opt_seq_view(r->0) == t,
        },
{
    match v.get("questions") {
        None => Some(None),
        Some(JsonValue::Null) => Some(None),
        Some(JsonValue::Array(items)) => match read_question_inputs(items) {
            Some(qs) => Some(Some(qs)),
            None => None,
        },
        _ => None,
    }
}

fn read_ask_input(v: &JsonValue) -> (r: Option<AskIn>)
    ensures
        match ask_input(*v) {
            None => r is None,
            Some(i) => r is Some && r->0@ == i,
        },
{
    match v {
        JsonValue::Object(_) => {
            let q = read_text_field(v, "question");
            let h = read_text_field(v, "header");
            let o = read_options_field(v);
            let f = read_flag_field(v);
            let qs = read_questions_field(v);
            match (q, h, o, f, qs) {
                (Some(q), Some(h), Some(o), Some(f), Some(qs)) => Some(AskIn { question: q, header: h, options: o, multi_select: f, questions: qs }),
                _ => None,
            }
        },
        _ => None,
    }
}

fn option_from_input(i: &OptionIn) -> (r: AskOption)
    ensures
        r@ == option_of(i@),
{
    match i {
        OptionIn::Text(s) => AskOption { value: s.clone(), label: None, description: None, preview: None },
        OptionIn::Fields(v, l, d, p) => {
            let value = match v {
                Some(x) => x.clone(),
                None => match l {
                    Some(y) => y.clone(),
                    None => String::new(),
                },
            };
            AskOption { value, label: clone_opt(l), description: clone_opt(d), preview: clone_opt(p) }
        },
    }
}

proof fn lemma_convert_options_err(is: Seq<OptionInputView>, n: int)
    requires
        0 <= n <= is.len(),
        convert_options(is.take(n)) is Err,
    ensures
        convert_options(is) == convert_options(is.take(n)),
    decreases is.len() - n,
{
    if n < is.len() {
        assert(is.take(n + 1).drop_last() =~= is.take(n));
        lemma_convert_options_err(is, n + 1);
    } else {
        assert(is.take(n) =~= is);
    }
}

proof fn lemma_convert_questions_err(qis: Seq<QuestionInputView>, n: int)
    requires
        0 <= n <= qis.len(),
        convert_questions(qis.take(n)) is Err,
    ensures
        convert_questions(qis) == convert_questions(qis.take(n)),
    decreases qis.len() - n,
{
    if n < qis.len() {
        assert(qis.take(n + 1).drop_last() =~= qis.take(n));
        lemma_convert_questions_err(qis, n + 1);
    } else {
        assert(qis.take(n) =~= qis);
    }
}

fn options_from_inputs(is: &Vec<OptionIn>) -> (r: Result<Vec<AskOption>, ToolError>)
    ensures
        match convert_options(is@.map_values(|x: OptionIn| x@)) {
            Ok(os) => r is Ok && r->Ok_0@.map_values(|o: AskOption| o@) == os,
            Err(m) => r matches Err(ToolError::InvalidParams(t)) && t@ == m,
        },
{
    let ghost iv = is@.map_values(|x: OptionIn| x@);
    let mut out: Vec<AskOption> = Vec::new();
    let mut i: usize = 0;
    proof {
        assert(iv.take(0) =~= seq![]);
        assert(out@.map_values(|o: AskOption| o@) =~= seq![]);
    }
    while i < is.len()
        invariant
            i <= is@.len(),
            iv == is@.map_values(|x: OptionIn| x@),
            convert_options(iv.take(i as int)) == Ok::<Seq<AskOptionView>, Seq<char>>(out@.map_values(|o: AskOption| o@)),
        decreases is@.len() - i,
    {
        proof {
            assert(iv.take(i + 1).drop_last() =~= iv.take(i as int));
            assert(iv.take(i + 1).last() == is@[i as int]@);
        }
        let o = option_from_input(&is[i]);
        match o.validate() {
            Err(e) => {
                proof {
                    lemma_convert_options_err(iv, i as int + 1);
                }
                return Err(e);
            },
            Ok(()) => {
                let ghost before = out@;
                out.push(o);
                proof {
                    assert(out@.map_values(|o: AskOption| o@) =~= before.map_values(|o: AskOption| o@).push(o@));
                }
            },
        }
        i = i + 1;
    }
    proof {
        assert(iv.take(is@.len() as int) =~= iv);
    }
    Ok(out)
}

fn question_from_input(qi: &QuestionIn) -> (r: Result<AskQuestion, ToolError>)
    ensures
        match convert_question(qi@) {
            Ok(q) => r is Ok && r->Ok_0@ == q,
            Err(m) => r matches Err(ToolError::InvalidParams(t)) && t@ == m,
        },
{
    let options = match &qi.options {
        Some(os) => options_from_inputs(os),
        None => {
            let empty: Vec<OptionIn> = Vec::new();
            proof {
                assert(empty@.map_values(|x: OptionIn| x@) =~= seq![]);
            }
            options_from_inputs(&empty)
        },
    };
    let options = match options {
        Err(e) => return Err(e),
        Ok(os) => os,
    };
    let q = AskQuestion {
        question: qi.question.clone(),
        header: clone_opt(&qi.header),
        options,
        multi_select: qi.multi_select,
    };
    match q.validate() {
        Err(e) => Err(e),
        Ok(()) => Ok(q),
    }
}

fn questions_from_inputs(qis: &Vec<QuestionIn>) -> (r: Result<Vec<AskQuestion>, ToolError>)
    ensures
        match convert_questions(qis@.map_values(|x: QuestionIn| x@)) {
            Ok(qs) => r is Ok && r->Ok_0@.map_values(|q: AskQuestion| q@) == qs,
            Err(m) => r matches Err(ToolError::InvalidParams(t)) && t@ == m,
        },
{
    let ghost iv = qis@.map_values(|x: QuestionIn| x@);
    let mut out: Vec<AskQuestion> = Vec::new();
    let mut i: usize = 0;
    proof {
        assert(iv.take(0) =~= seq![]);
        assert(out@.map_values(|q: AskQuestion| q@) =~= seq![]);
    }
    while i < qis.len()
        invariant
            i <= qis@.len(),
            iv == qis@.map_values(|x: QuestionIn| x@),
            convert_questions(iv.take(i as int)) == Ok::<Seq<AskQuestionView>, Seq<char>>(out@.map_values(|q: AskQuestion| q@)),
        decreases qis@.len() - i,
    {
        proof {
            assert(iv.take(i + 1).drop_last() =~= iv.take(i as int));
            assert(iv.take(i + 1).last() == qis@[i as int]@);
        }
        match question_from_input(&qis[i]) {
            Err(e) => {
                proof {
                    lemma_convert_questions_err(iv, i as int + 1);
                }
                return Err(e);
            },
            Ok(q) => {
                let ghost before = out@;
                out.push(q);
                proof {
                    assert(out@.map_values(|q: AskQuestion| q@) =~= before.map_values(|q: AskQuestion| q@).push(q@));
                }
            },
        }
        i = i + 1;
    }
    proof {
        assert(iv.take(qis@.len() as int) =~= iv);
    }
    Ok(out)
}

/// The outcome of reading the tool's parameters: `None` when they are
/// malformed, else the request or the message it is refused with.
pub open spec fn parsed_request(params: JsonValue) -> Option<Result<Seq<AskQuestionView>, Seq<char>>> {
    match ask_input(params) {
        None => None,
        Some(inp) => Some(request_of(inp)),
    }
}

/// Reads the tool's parameters: either the `questions` list, or the legacy
/// `question` (with `header`, `options` and `multiSelect`), and checks the
/// request. Malformed parameters are refused with a message that starts with
/// `Failed to parse ask input: `.
pub fn parse_request(params: &JsonValue) -> (r: Result<AskRequest, ToolError>)
    ensures
        match parsed_request(*params) {
            None => r matches Err(ToolError::InvalidParams(t)) && t@.len() >= MSG_PARSE_PREFIX@.len()
                && t@.take(MSG_PARSE_PREFIX@.len() as int) == MSG_PARSE_PREFIX@,
            Some(Ok(qs)) => r is Ok && r->Ok_0@ == qs,
            Some(Err(m)) => r matches Err(ToolError::InvalidParams(t)) && t@ == m,
        },
{
    let input = match read_ask_input(params) {
        None => {
            let mut msg = String::from_str(MSG_PARSE_PREFIX);
            msg.append("the parameters do not have the expected shape");
            return Err(ToolError::InvalidParams(msg));
        },
        Some(i) => i,
    };
    let questions: Vec<AskQuestion> = match &input.questions {
        Some(qis) => match questions_from_inputs(qis) {
            Err(e) => return Err(e),
            Ok(qs) => qs,
        },
        None => {
            let q = match &input.question {
                None => return Err(invalid_params(MSG_MISSING_QUESTION)),
                Some(q) => q.clone(),
            };
            let options = match &input.options {
                Some(os) => options_from_inputs(os),
                None => {
                    let empty: Vec<OptionIn> = Vec::new();
                    proof {
                        assert(empty@.map_values(|x: OptionIn| x@) =~= seq![]);
                    }
                    options_from_inputs(&empty)
                },
            };
            let options = match options {
                Err(e) => return Err(e),
                Ok(os) => os,
            };
            let question = AskQuestion { question: q, header: clone_opt(&input.header), options, multi_select: input.multi_select };
            let mut qs: Vec<AskQuestion> = Vec::new();
            qs.push(question);
            proof {
                assert(qs@.map_values(|q: AskQuestion| q@) =~= seq![question@]);
            }
            qs
        },
    };
    let request = AskRequest { questions };
    match request.validate() {
        Err(e) => Err(e),
        Ok(()) => Ok(request),
    }
}

/// The answer a JSON value gives: trimmed non-blank text, the answers of an
/// array's items joined with `, `, a number's text, `true` or `false`;
/// nothing for `null`, objects, blank text and arrays that give none.
pub open spec fn answer_text(v: JsonValue) -> Option<Seq<char>>
    decreases v, 0nat,
{
    match v {
        JsonValue::String(t) => if trim(t@).len() == 0 {
            None
        } else {
            Some(trim(t@))
        },
        JsonValue::Array(items) => {
            let parts = answer_parts(items@, items@.len() as nat);
            if parts.len() == 0 {
                None
            } else {
                Some(join(parts, ", "@))
            }
        },
        JsonValue::Number(n) => Some(n@),
        JsonValue::Bool(b) => Some(if b { "true"@ } else { "false"@ }),
        _ => None,
    }
}

/// The answers given by the first `n` items, in order, skipping those that give none.
pub open spec fn answer_parts(items: Seq<JsonValue>, n: nat) -> Seq<Seq<char>>
    decreases items, n,
{
    if n == 0 || n > items.len() {
        seq![]
    } else {
        let r = answer_parts(items, (n - 1) as nat);
        match answer_text(items[n - 1]) {
            Some(a) => r.push(a),
            None => r,
        }
    }
}

/// The answer a JSON value gives (see `answer_text`).
pub fn normalize_answer_value(v: &JsonValue) -> (r: Option<String>)
    ensures
        opt_chars(r) == answer_text(*v),
    decreases v,
{
    match v {
        JsonValue::String(t) => {
            let s = trim_str(t.as_str());
            if s.as_str().is_empty() {
                None
            } else {
                Some(s)
            }
        },
        JsonValue::Array(items) => {
            let mut parts: Vec<Vec<char>> = Vec::new();
            let mut i: usize = 0;
            while i < items.len()
                invariant
                    i <= items@.len(),
                    *v == JsonValue::Array(*items),
                    parts@.map_values(|w: Vec<char>| w@) == answer_parts(items@, i as nat),
                decreases items@.len() - i,
            {
                proof {
                    assert(decreases_to!(*v => v->Array_0));
                    assert(decreases_to!(v->Array_0 => v->Array_0@));
                    assert(v->Array_0@ == items@);
                    assert(decreases_to!(items@ => items@[i as int]));
                    assert(decreases_to!(*v => items@[i as int]));
                }
                let a = normalize_answer_value(&items[i]);
                match a {
                    Some(t) => {
                        let ghost before = parts@;
                        parts.push(chars_of(t.as_str()));
                        proof {
                            assert(parts@.map_values(|w: Vec<char>| w@) =~= before.map_values(|w: Vec<char>| w@).push(t@));
                        }
                    },
                    None => {},
                }
                i = i + 1;
            }
            if parts.len() == 0 {
                None
            } else {
                let sep = chars_of(", ");
                let joined = join_chars(&parts, sep.as_slice());
                Some(string_from(joined.as_slice()))
            }
        },
        JsonValue::Number(n) => Some(n.clone()),
        JsonValue::Bool(b) => if *b {
            Some(String::from_str("true"))
        } else {
            Some(String::from_str("false"))
        },
        _ => None,
    }
}

/// Answers keyed by question text, in the order of their keys.
pub type Answers = Seq<(Seq<char>, Seq<char>)>;

/// The answers held by a list of string pairs.
pub open spec fn pairs_view(a: Seq<(String, String)>) -> Answers {
    a.map_values(|p: (String, String)| (p.0@, p.1@))
}

/// `s` with `k` set to `v`: the entry for `k` replaced, or a new entry placed
/// before the first larger key (as a `BTreeMap` orders its entries).
pub open spec fn sorted_insert(s: Answers, k: Seq<char>, v: Seq<char>) -> Answers
    decreases s.len(),
{
    if s.len() == 0 {
        seq![(k, v)]
    } else if s[0].0 == k {
        s.update(0, (k, v))
    } else if seq_lt(k, s[0].0) {
        seq![(k, v)] + s
    } else {
        seq![s[0]] + sorted_insert(s.skip(1), k, v)
    }
}

/// The answer stored under `k`.
pub open spec fn answer_for(s: Answers, k: Seq<char>) -> Option<Seq<char>>
    decreases s.len(),
{
    if s.len() == 0 {
        None
    } else if s[0].0 == k {
        Some(s[0].1)
    } else {
        answer_for(s.skip(1), k)
    }
}

fn answers_insert(a: &mut Vec<(String, String)>, k: String, v: String)
    ensures
        pairs_view(final(a)@) == sorted_insert(pairs_view(old(a)@), k@, v@),
{
    let ghost s0 = pairs_view(a@);
    let kc = chars_of(k.as_str());
    let mut i: usize = 0;
    proof {
        assert(s0.take(0) + s0.skip(0) =~= s0);
        assert(s0.skip(0) =~= s0);
        assert(s0.take(0) + sorted_insert(s0, k@, v@) =~= sorted_insert(s0, k@, v@));
    }
    while i < a.len()
        invariant
            i <= a@.len(),
            s0 == pairs_view(a@),
            s0 == pairs_view(old(a)@),
            kc@ == k@,
            sorted_insert(s0, k@, v@) == s0.take(i as int) + sorted_insert(s0.skip(i as int), k@, v@),
        decreases a@.len() - i,
    {
        let ac = chars_of(a[i].0.as_str());
        proof {
            assert(s0.skip(i as int)[0] == s0[i as int]);
        }
        if crate::text::eq_chars(ac.as_slice(), kc.as_slice()) {
            let ghost before = a@;
            a.set(i, (k, v));
            proof {
                assert(pairs_view(a@) =~= s0.take(i as int) + s0.skip(i as int).update(0, (k@, v@)));
            }
            return;
        }
        if chars_lt(kc.as_slice(), ac.as_slice()) {
            a.insert(i, (k, v));
            proof {
                assert(pairs_view(a@) =~= s0.take(i as int) + (seq![(k@, v@)] + s0.skip(i as int)));
            }
            return;
        }
        proof {
            assert(s0.skip(i as int).skip(1) =~= s0.skip(i + 1));
            assert(s0.take(i + 1) =~= s0.take(i as int) + seq![s0[i as int]]);
            assert(s0.take(i as int) + (seq![s0[i as int]] + sorted_insert(s0.skip(i + 1), k@, v@)) =~= s0.take(i + 1)
                + sorted_insert(s0.skip(i + 1), k@, v@));
        }
        i = i + 1;
    }
    a.push((k, v));
    proof {
        assert(s0.take(i as int) =~= s0);
        assert(pairs_view(a@) =~= s0 + seq![(k@, v@)]);
    }
}

fn answers_get<'a>(a: &'a Vec<(String, String)>, k: &str) -> (r: Option<&'a String>)
    ensures
        match r {
            Some(t) => answer_for(pairs_view(a@), k@) == Some(t@),
            None => answer_for(pairs_view(a@), k@) is None,
        },
{
    let ghost s0 = pairs_view(a@);
    let kc = chars_of(k);
    let mut i: usize = 0;
    proof {
        assert(s0.skip(0) =~= s0);
    }
    while i < a.len()
        invariant
            i <= a@.len(),
            s0 == pairs_view(a@),
            kc@ == k@,
            answer_for(s0, k@) == answer_for(s0.skip(i as int), k@),
        decreases a@.len() - i,
    {
        proof {
            assert(s0.skip(i as int)[0] == s0[i as int]);
            assert(s0.skip(i as int).skip(1) =~= s0.skip(i + 1));
        }
        let ac = chars_of(a[i].0.as_str());
        if crate::text::eq_chars(ac.as_slice(), kc.as_slice()) {
            return Some(&a[i].1);
        }
        i = i + 1;
    }
    None
}

/// A character kept in a field key; any other becomes `_`.
pub open spec fn key_char(c: char) -> char {
    if ('a' <= c && c <= 'z') || ('A' <= c && c <= 'Z') || ('0' <= c && c <= '9') || c == '_' || c == '-' {
        c
    } else {
        '_'
    }
}

/// The key under which a response object may carry the answer to question
/// `index` of `total`: `answer` for a lone question, else the question's
/// header lowered and reduced to `[A-Za-z0-9_-]` (other characters become `_`,
/// outer underscores dropped) when that leaves something, else
/// `question_<index + 1>`.
pub open spec fn field_key(q: AskQuestionView, index: nat, total: nat) -> Seq<char> {
    if total == 1 {
        "answer"@
    } else {
        let h = match q.header {
            Some(h) => crate::text::trim_end_char(crate::text::trim_start_char(
                lowercase(trim(h)).map_values(|c: char| key_char(c)), '_'), '_'),
            None => Seq::empty(),
        };
        if h.len() > 0 {
            h
        } else {
            "question_"@ + decimal(index + 1)
        }
    }
}

fn field_key_of(q: &AskQuestion, index: usize, total: usize) -> (r: String)
    requires
        index < total,
    ensures
        r@ == field_key(q@, index as nat, total as nat),
{
    if total == 1 {
        return String::from_str("answer");
    }
    match &q.header {
        Some(h) => {
            let t = trim_str(h.as_str());
            let lower = to_lowercase(t.as_str());
            let lc = chars_of(lower.as_str());
            let mut mapped: Vec<char> = Vec::new();
            let mut i: usize = 0;
            while i < lc.len()
                invariant
                    i <= lc@.len(),
                    mapped@ == lc@.take(i as int).map_values(|c: char| key_char(c)),
                decreases lc@.len() - i,
            {
                let c = lc[i];
                let m = if ('a' <= c && c <= 'z') || ('A' <= c && c <= 'Z') || ('0' <= c && c <= '9') || c == '_' || c == '-' {
                    c
                } else {
                    '_'
                };
                mapped.push(m);
                proof {
                    assert(lc@.take(i + 1).map_values(|c: char| key_char(c)) =~= lc@.take(i as int).map_values(
                        |c: char| key_char(c),
                    ).push(key_char(c)));
                }
                i = i + 1;
            }
            proof {
                assert(lc@.take(lc@.len() as int) =~= lc@);
            }
            let a = crate::text::trim_start_char_chars(mapped.as_slice(), '_');
            let b = crate::text::trim_end_char_chars(a.as_slice(), '_');
            if b.len() > 0 {
                return string_from(b.as_slice());
            }
        },
        None => {},
    }
    let mut r = String::from_str("question_");
    let n = u64_to_string((index + 1) as u64);
    r.append(n.as_str());
    proof {
        reveal_strlit("question_");
    }
    r
}

/// The answer a response object holds under `key` (none for an empty key).
pub open spec fn key_answer(resp: JsonValue, key: Seq<char>) -> Option<Seq<char>> {
    if key.len() == 0 {
        None
    } else {
        match member(resp, key) {
            Some(v) => answer_text(v),
            None => None,
        }
    }
}

/// The answer a response object gives to question `index` of `total` under its
/// own keys: the question's text, else its header, else its field key.
pub open spec fn keyed_answer(resp: JsonValue, q: AskQuestionView, index: nat, total: nat) -> Option<Seq<char>> {
    match key_answer(resp, q.question) {
        Some(a) => Some(a),
        None => match key_answer(resp, match q.header { Some(h) => h, None => Seq::empty() }) {
            Some(a) => Some(a),
            None => key_answer(resp, field_key(q, index, total)),
        },
    }
}

/// The answers an `answers` object gives to the first `n` questions.
pub open spec fn listed_answers(qs: Seq<AskQuestionView>, am: JsonValue, n: nat) -> Answers
    decreases n,
{
    if n == 0 || n > qs.len() {
        seq![]
    } else {
        let r = listed_answers(qs, am, (n - 1) as nat);
        match member(am, qs[n - 1].question) {
            Some(v) => match answer_text(v) {
                Some(a) => sorted_insert(r, qs[n - 1].question, a),
                None => r,
            },
            None => r,
        }
    }
}

/// `init` completed, for the first `n` questions still unanswered, by the
/// answers the response gives under their own keys.
pub open spec fn keyed_answers(qs: Seq<AskQuestionView>, resp: JsonValue, init: Answers, n: nat) -> Answers
    decreases n,
{
    if n == 0 || n > qs.len() {
        init
    } else {
        let r = keyed_answers(qs, resp, init, (n - 1) as nat);
        if answer_for(r, qs[n - 1].question) is Some {
            r
        } else {
            match keyed_answer(resp, qs[n - 1], (n - 1) as nat, qs.len()) {
                Some(a) => sorted_insert(r, qs[n - 1].question, a),
                None => r,
            }
        }
    }
}

/// The answer under `other`, else under `answer`.
pub open spec fn fallback_answer(resp: JsonValue) -> Option<Seq<char>> {
    match member(resp, "other"@) {
        Some(v) => answer_text(v),
        None => match member(resp, "answer"@) {
            Some(v) => answer_text(v),
            None => None,
        },
    }
}

/// The answers a response gives to the questions, keyed by question text. A
/// plain value answers the first question; an object answers through its
/// `answers` object, then through each question's own keys, and for a lone
/// question still unanswered through `other` or `answer`.
pub open spec fn resolved_answers(qs: Seq<AskQuestionView>, resp: JsonValue) -> Answers {
    match resp {
        JsonValue::Object(_) => {
            let listed = match member(resp, "answers"@) {
                Some(am) => if am is Object {
                    listed_answers(qs, am, qs.len())
                } else {
                    seq![]
                },
                None => seq![],
            };
            let keyed = keyed_answers(qs, resp, listed, qs.len());
            if keyed.len() == 0 && qs.len() == 1 {
                match fallback_answer(resp) {
                    Some(a) => sorted_insert(keyed, qs[0].question, a),
                    None => keyed,
                }
            } else {
                keyed
            }
        },
        JsonValue::Null => seq![],
        _ => if qs.len() > 0 {
            match answer_text(resp) {
                Some(a) => seq![(qs[0].question, a)],
                None => seq![],
            }
        } else {
            seq![]
        },
    }
}

fn key_answer_of(resp: &JsonValue, key: &str) -> (r: Option<String>)
    ensures
        opt_chars(r) == key_answer(*resp, key@),
{
    if key.is_empty() {
        return None;
    }
    match resp.get(key) {
        Some(v) => normalize_answer_value(v),
        None => None,
    }
}

fn keyed_answer_of(resp: &JsonValue, q: &AskQuestion, index: usize, total: usize) -> (r: Option<String>)
    requires
        index < total,
    ensures
        opt_chars(r) == keyed_answer(*resp, q@, index as nat, total as nat),
{
    match key_answer_of(resp, q.question.as_str()) {
        Some(a) => return Some(a),
        None => {},
    }
    let h = match &q.header {
        Some(h) => key_answer_of(resp, h.as_str()),
        None => {
            proof {
                reveal_strlit("");
            }
            key_answer_of(resp, "")
        },
    };
    match h {
        Some(a) => return Some(a),
        None => {},
    }
    let key = field_key_of(q, index, total);
    key_answer_of(resp, key.as_str())
}

/// The answers a response gives to the request's questions (see `resolved_answers`).
pub fn resolve_answers(request: &AskRequest, response: &JsonValue) -> (r: Vec<(String, String)>)
    ensures
        pairs_view(r@) == resolved_answers(request@, *response),
{
    let ghost qs = request@;
    let total = request.questions.len();
    let mut answers: Vec<(String, String)> = Vec::new();
    match response {
        JsonValue::Object(_) => {},
        JsonValue::Null => {
            proof {
                assert(pairs_view(answers@) =~= seq![]);
            }
            return answers;
        },
        _ => {
            if total > 0 {
                match normalize_answer_value(response) {
                    Some(a) => {
                        answers.push((request.questions[0].question.clone(), a));
                        proof {
                            assert(pairs_view(answers@) =~= seq![(qs[0].question, a@)]);
                        }
                    },
                    None => {},
                }
            }
            proof {
                assert(pairs_view(answers@) =~= resolved_answers(qs, *response));
            }
            return answers;
        },
    }
    match response.get("answers") {
        Some(am) => if am.is_object() {
            let mut i: usize = 0;
            while i < total
                invariant
                    i <= total == qs.len(),
                    qs == request@,
                    *am is Object,
                    pairs_view(answers@) == listed_answers(qs, *am, i as nat),
                decreases total - i,
            {
                let q = &request.questions[i];
                match am.get(q.question.as_str()) {
                    Some(v) => match normalize_answer_value(v) {
                        Some(a) => answers_insert(&mut answers, q.question.clone(), a),
                        None => {},
                    },
                    None => {},
                }
                i = i + 1;
            }
        },
        None => {},
    }
    proof {
        assert(listed_answers(qs, JsonValue::Null, 0) == Seq::<(Seq<char>, Seq<char>)>::empty());
        assert(pairs_view(answers@) =~= match member(*response, "answers"@) {
            Some(am) => if am is Object {
                listed_answers(qs, am, qs.len())
            } else {
                seq![]
            },
            None => seq![],
        });
    }
    let ghost listed = pairs_view(answers@);
    let mut i: usize = 0;
    while i < total
        invariant
            i <= total == qs.len(),
            qs == request@,
            pairs_view(answers@) == keyed_answers(qs, *response, listed, i as nat),
        decreases total - i,
    {
        let q = &request.questions[i];
        if answers_get(&answers, q.question.as_str()).is_none() {
            match keyed_answer_of(response, q, i, total) {
                Some(a) => answers_insert(&mut answers, q.question.clone(), a),
                None => {},
            }
        }
        i = i + 1;
    }
    if answers.len() == 0 && total == 1 {
        let candidate = match response.get("other") {
            Some(v) => normalize_answer_value(v),
            None => match response.get("answer") {
                Some(v) => normalize_answer_value(v),
                None => None,
            },
        };
        match candidate {
            Some(a) => answers_insert(&mut answers, request.questions[0].question.clone(), a),
            None => {},
        }
    }
    answers
}

/// The first option, from `i` on, whose value or display text is `t`.
pub open spec fn first_matching_option(os: Seq<AskOptionView>, t: Seq<char>, i: int) -> Option<nat>
    decreases os.len() - i,
{
    if i < 0 || i >= os.len() {
        None
    } else if t == os[i].value || t == option_display(os[i]) {
        Some(i as nat)
    } else {
        first_matching_option(os, t, i + 1)
    }
}

/// The option an answer picks: the first whose value or display text equals
/// the trimmed answer (none for a missing or blank answer).
pub open spec fn option_match(q: AskQuestionView, answer: Option<Seq<char>>) -> Option<nat> {
    match answer {
        None => None,
        Some(a) => if trim(a).len() == 0 {
            None
        } else {
            first_matching_option(q.options, trim(a), 0)
        },
    }
}

fn option_match_of(q: &AskQuestion, answer: Option<&String>) -> (r: Option<usize>)
    ensures
        match r {
            Some(i) => option_match(q@, opt_chars(match answer { Some(a) => Some(*a), None => None })) == Some(i as nat)
                && i < q.options@.len(),
            None => option_match(q@, opt_chars(match answer { Some(a) => Some(*a), None => None })) is None,
        },
{
    let a = match answer {
        None => return None,
        Some(a) => trim_str(a.as_str()),
    };
    if a.as_str().is_empty() {
        return None;
    }
    let ghost os = q@.options;
    let mut i: usize = 0;
    while i < q.options.len()
        invariant
            i <= q.options@.len(),
            os == q@.options,
            a@.len() > 0,
            answer matches Some(x) && a@ == trim(x@),
            first_matching_option(os, a@, 0) == first_matching_option(os, a@, i as int),
        decreases q.options@.len() - i,
    {
        let o = &q.options[i];
        proof {
            assert(os[i as int] == o@);
        }
        if a == o.value || crate::text::str_eq(a.as_str(), o.display()) {
            return Some(i);
        }
        i = i + 1;
    }
    None
}

/// What the user's answers came to.
#[derive(Debug)]
pub struct AskResult {
    /// The response as the user gave it
    pub response: JsonValue,
    /// Answers keyed by question text, ordered by key
    pub answers: Vec<(String, String)>,
    /// Whether the answer picked a predefined option
    pub from_option: bool,
    /// The option picked, if any
    pub option_index: Option<usize>,
}

/// The outcome of normalising a response: the answers, whether an option was
/// picked and which; `None` when the response answers nothing.
pub open spec fn normalized(qs: Seq<AskQuestionView>, resp: JsonValue) -> Option<(Answers, bool, Option<nat>)> {
    let a = resolved_answers(qs, resp);
    if a.len() == 0 {
        None
    } else if qs.len() == 1 {
        match option_match(qs[0], answer_for(a, qs[0].question)) {
            Some(i) => Some((sorted_insert(a, qs[0].question, qs[0].options[i as int].value), true, Some(i))),
            None => Some((a, false, None)),
        }
    } else {
        Some((a, false, None))
    }
}

pub const MSG_EMPTY_RESPONSE: &'static str = "User response was empty or could not be normalized";
pub const MSG_NO_CALLBACK: &'static str = "No callback configured for user interaction";
pub const MSG_CANCELLED: &'static str = "User cancelled the interaction";

/// The index as a natural number.
pub open spec fn opt_nat(o: Option<usize>) -> Option<nat> {
    match o {
        Some(i) => Some(i as nat),
        None => None,
    }
}

/// Turns the user's response into answers. For a lone question, an answer
/// that names one of its options (by value or label) is replaced by that
/// option's value. A response that answers nothing is refused.
pub fn normalize_result(request: &AskRequest, response: JsonValue) -> (r: Result<AskResult, ToolError>)
    ensures
        match normalized(request@, response) {
            None => r matches Err(ToolError::ExecutionFailed(m)) && m@ == MSG_EMPTY_RESPONSE@,
            Some((a, f, i)) => r matches Ok(res) && res.response == response && pairs_view(res.answers@) == a
                && res.from_option == f && opt_nat(res.option_index) == i,
        },
{
    let mut answers = resolve_answers(request, &response);
    if answers.len() == 0 {
        return Err(ToolError::ExecutionFailed(String::from_str(MSG_EMPTY_RESPONSE)));
    }
    if request.questions.len() == 1 {
        let q = &request.questions[0];
        let m = option_match_of(q, answers_get(&answers, q.question.as_str()));
        match m {
            Some(i) => {
                let value = q.options[i].value.clone();
                proof {
                    assert(request@[0] == q@);
                    assert(q@.options[i as int].value == value@);
                }
                answers_insert(&mut answers, q.question.clone(), value);
                Ok(AskResult { response, answers, from_option: true, option_index: Some(i) })
            },
            None => Ok(AskResult { response, answers, from_option: false, option_index: None }),
        }
    } else {
        Ok(AskResult { response, answers, from_option: false, option_index: None })
    }
}

/// The answers given one after the other, kept in key order (a later answer
/// to the same question replaces the earlier one).
pub open spec fn inserted_all(start: Answers, given: Seq<(Seq<char>, Seq<char>)>) -> Answers
    decreases given.len(),
{
    if given.len() == 0 {
        start
    } else {
        sorted_insert(inserted_all(start, given.drop_last()), given.last().0, given.last().1)
    }
}

impl AskResult {
    /// A result from a response, the answers by question, whether an option
    /// was picked and which.
    pub fn new(response: JsonValue, answers: Vec<(String, String)>, from_option: bool, option_index: Option<usize>) -> (r: Self)
        ensures
            r.response == response,
            pairs_view(r.answers@) == inserted_all(Seq::empty(), pairs_view(answers@)),
            r.from_option == from_option,
            r.option_index == option_index,
    {
        let ghost given = pairs_view(answers@);
        let total = answers.len();
        let mut sorted: Vec<(String, String)> = Vec::new();
        let mut rest = answers;
        let mut n: usize = 0;
        proof {
            assert(pairs_view(sorted@) =~= Seq::<(Seq<char>, Seq<char>)>::empty());
            assert(given.take(0) =~= Seq::<(Seq<char>, Seq<char>)>::empty());
        }
        while rest.len() > 0
            invariant
                n + rest@.len() == given.len(),
                given.len() == total,
                pairs_view(rest@) == given.skip(n as int),
                pairs_view(sorted@) == inserted_all(Seq::empty(), given.take(n as int)),
            decreases rest@.len(),
        {
            let ghost before = rest@;
            let (k, v) = rest.remove(0);
            proof {
                assert(pairs_view(before)[0] == (k@, v@));
                assert(given.skip(n as int)[0] == (k@, v@));
                assert(given[n as int] == (k@, v@));
                assert(rest@ =~= before.skip(1));
                assert(pairs_view(before.skip(1)) =~= pairs_view(before).skip(1));
                assert(given.skip(n as int).skip(1) =~= given.skip(n + 1 as int));
                assert(given.take(n + 1 as int).drop_last() =~= given.take(n as int));
            }
            answers_insert(&mut sorted, k, v);
            n = n + 1;
        }
        proof {
            assert(given.take(n as int) =~= given);
        }
        AskResult { response, answers: sorted, from_option, option_index }
    }

    /// The first answer in key order.
    pub fn primary_response(&self) -> (r: Option<&str>)
        ensures
            match r {
                Some(t) => self.answers@.len() > 0 && t@ == self.answers@[0].1@,
                None => self.answers@.len() == 0,
            },
    {
        if self.answers.len() == 0 {
            None
        } else {
            Some(self.answers[0].1.as_str())
        }
    }

    /// The answer recorded for a question.
    pub fn answer(&self, question: &str) -> (r: Option<&str>)
        ensures
            match r {
                Some(t) => answer_for(pairs_view(self.answers@), question@) == Some(t@),
                None => answer_for(pairs_view(self.answers@), question@) is None,
            },
    {
        match answers_get(&self.answers, question) {
            Some(t) => Some(t.as_str()),
            None => None,
        }
    }
}

/// How waiting for the user ended: no way to ask, no answer in time (after
/// this many milliseconds), the user cancelled, or a response.
pub enum AskOutcome {
    NoCallback,
    TimedOut(u64),
    Cancelled,
    Responded(JsonValue),
}

/// The result of asking, given how waiting for the user ended.
pub fn finish_ask(request: &AskRequest, outcome: AskOutcome) -> (r: Result<AskResult, ToolError>)
    ensures
        match outcome {
            AskOutcome::NoCallback => r matches Err(ToolError::ExecutionFailed(m)) && m@ == MSG_NO_CALLBACK@,
            AskOutcome::TimedOut(ms) => r == Err::<AskResult, ToolError>(ToolError::Timeout(ms)),
            AskOutcome::Cancelled => r matches Err(ToolError::ExecutionFailed(m)) && m@ == MSG_CANCELLED@,
            AskOutcome::Responded(v) => match normalized(request@, v) {
                None => r matches Err(ToolError::ExecutionFailed(m)) && m@ == MSG_EMPTY_RESPONSE@,
                Some((a, f, i)) => r matches Ok(res) && res.response == v && pairs_view(res.answers@) == a
                    && res.from_option == f && opt_nat(res.option_index) == i,
            },
        },
{
    match outcome {
        AskOutcome::NoCallback => Err(ToolError::ExecutionFailed(String::from_str(MSG_NO_CALLBACK))),
        AskOutcome::TimedOut(ms) => Err(ToolError::Timeout(ms)),
        AskOutcome::Cancelled => Err(ToolError::ExecutionFailed(String::from_str(MSG_CANCELLED))),
        AskOutcome::Responded(v) => normalize_result(request, v),
    }
}

/// The line listing one answer.
pub open spec fn answer_line(p: (Seq<char>, Seq<char>)) -> Seq<char> {
    "- "@ + p.0 + ": "@ + p.1
}

/// The first answer in key order (empty when there is none).
pub open spec fn primary_answer(a: Answers) -> Seq<char> {
    if a.len() > 0 {
        a[0].1
    } else {
        Seq::empty()
    }
}

/// The tool's output for a result: every answer on a line of its own when
/// there are several, else the option picked, else the answer.
pub open spec fn ask_output(a: Answers, from_option: bool, index: Option<nat>) -> Seq<char> {
    if a.len() > 1 {
        "User answered multiple questions:\n"@ + join(a.map_values(|p: (Seq<char>, Seq<char>)| answer_line(p)), "\n"@)
    } else if from_option {
        "User selected option "@ + decimal(match index { Some(i) => i, None => 0 } + 1) + ": "@ + primary_answer(a)
    } else {
        "User response: "@ + primary_answer(a)
    }
}

/// The entries of an object hold exactly these answers, as strings, in order.
pub open spec fn answers_object(es: Seq<(String, JsonValue)>, a: Answers) -> bool {
    &&& es.len() == a.len()
    &&& forall|i: int| 0 <= i < es.len() ==> (#[trigger] es[i]).0@ == a[i].0 && (es[i].1 matches JsonValue::String(t) && t@ == a[i].1)
}

fn answers_json(answers: &Vec<(String, String)>) -> (r: JsonValue)
    ensures
        r matches JsonValue::Object(es) && answers_object(es@, pairs_view(answers@)),
{
    let mut es: Vec<(String, JsonValue)> = Vec::new();
    let mut i: usize = 0;
    while i < answers.len()
        invariant
            i <= answers@.len(),
            es@.len() == i,
            forall|j: int| 0 <= j < i ==> (#[trigger] es@[j]).0@ == answers@[j].0@ && (es@[j].1 matches JsonValue::String(t) && t@ == answers@[j].1@),
        decreases answers@.len() - i,
    {
        es.push((answers[i].0.clone(), JsonValue::String(answers[i].1.clone())));
        i = i + 1;
    }
    JsonValue::Object(es)
}

fn answer_lines(answers: &Vec<(String, String)>) -> (r: String)
    ensures
        r@ == join(pairs_view(answers@).map_values(|p: (Seq<char>, Seq<char>)| answer_line(p)), "\n"@),
{
    let ghost lines = pairs_view(answers@).map_values(|p: (Seq<char>, Seq<char>)| answer_line(p));
    let mut ws: Vec<Vec<char>> = Vec::new();
    let mut i: usize = 0;
    while i < answers.len()
        invariant
            i <= answers@.len(),
            lines == pairs_view(answers@).map_values(|p: (Seq<char>, Seq<char>)| answer_line(p)),
            ws@.map_values(|w: Vec<char>| w@) == lines.take(i as int),
        decreases answers@.len() - i,
    {
        let mut line = String::from_str("- ");
        line.append(answers[i].0.as_str());
        line.append(": ");
        line.append(answers[i].1.as_str());
        let ghost before = ws@;
        ws.push(chars_of(line.as_str()));
        proof {
            assert(line@ == answer_line((answers@[i as int].0@, answers@[i as int].1@)));
            assert(lines.take(i + 1) =~= lines.take(i as int).push(lines[i as int]));
            assert(ws@.map_values(|w: Vec<char>| w@) =~= before.map_values(|w: Vec<char>| w@).push(line@));
        }
        i = i + 1;
    }
    proof {
        assert(lines.take(answers@.len() as int) =~= lines);
    }
    let sep = chars_of("\n");
    let joined = join_chars(&ws, sep.as_slice());
    string_from(joined.as_slice())
}

/// The tool's result for the user's answers to a request: the output text
/// (see `ask_output`) and, as metadata, the first answer (`response`), all
/// answers (`answers`), the raw response, the number of questions, whether an
/// option was picked and which.
pub fn ask_tool_result(request: &AskRequest, result: AskResult) -> (r: ToolResult)
    requires
        request.questions@.len() <= u64::MAX,
        result.option_index matches Some(i) ==> i < u64::MAX,
    ensures
        r.success,
        r.error is None,
        r.output matches Some(o) && o@ == ask_output(pairs_view(result.answers@), result.from_option, opt_nat(result.option_index)),
        crate::tool::metadata_value(r.metadata@, "response"@) matches Some(JsonValue::String(t)) && t@ == primary_answer(pairs_view(result.answers@)),
        crate::tool::metadata_value(r.metadata@, "answers"@) matches Some(JsonValue::Object(es)) && answers_object(es@, pairs_view(result.answers@)),
        crate::tool::metadata_value(r.metadata@, "raw_response"@) == Some(result.response),
        crate::tool::metadata_value(r.metadata@, "question_count"@) matches Some(JsonValue::Number(n)) && n@ == decimal(request.questions@.len()),
        crate::tool::metadata_value(r.metadata@, "from_option"@) == Some(JsonValue::Bool(result.from_option)),
        crate::tool::metadata_value(r.metadata@, "option_index"@) matches Some(v) && match result.option_index {
            Some(i) => v matches JsonValue::Number(n) && n@ == decimal(i as nat),
            None => v == JsonValue::Null,
        },
{
    let primary = match result.primary_response() {
        Some(p) => String::from_str(p),
        None => String::new(),
    };
    let ghost a = pairs_view(result.answers@);
    proof {
        assert(primary@ == primary_answer(a));
    }
    let output = if result.answers.len() > 1 {
        let mut o = String::from_str("User answered multiple questions:\n");
        let lines = answer_lines(&result.answers);
        o.append(lines.as_str());
        o
    } else if result.from_option {
        let idx: usize = match result.option_index {
            Some(i) => i,
            None => 0,
        };
        let mut o = String::from_str("User selected option ");
        let n = u64_to_string((idx as u64) + 1);
        o.append(n.as_str());
        o.append(": ");
        o.append(primary.as_str());
        o
    } else {
        let mut o = String::from_str("User response: ");
        o.append(primary.as_str());
        o
    };
    let answers = answers_json(&result.answers);
    let count = JsonValue::Number(u64_to_string(request.questions.len() as u64));
    let index = match result.option_index {
        Some(i) => JsonValue::Number(u64_to_string(i as u64)),
        None => JsonValue::Null,
    };
    let from_option = result.from_option;
    proof {
        reveal_strlit("response");
        reveal_strlit("answers");
        reveal_strlit("raw_response");
        reveal_strlit("question_count");
        reveal_strlit("from_option");
        reveal_strlit("option_index");
        assert("response"@.len() == 8);
        assert("answers"@.len() == 7);
        assert("raw_response"@.len() == 12);
        assert("question_count"@.len() == 14);
        assert("from_option"@.len() == 11);
        assert("option_index"@.len() == 12);
        assert("raw_response"@[0] != "option_index"@[0]);
    }
    ToolResult::success(output.as_str())
        .with_metadata("response", JsonValue::String(primary))
        .with_metadata("answers", answers)
        .with_metadata("raw_response", result.response)
        .with_metadata("question_count", count)
        .with_metadata("from_option", JsonValue::Bool(from_option))
        .with_metadata("option_index", index)
}

/// The tool's name.
pub const ASK_TOOL_NAME: &'static str = "ask";

/// The tool's description.
pub const ASK_TOOL_DESCRIPTION: &'static str = "Ask one or more focused questions to the user and wait for their response. \
     Supports both the legacy `question/options` format and the modern \
     `questions` array format with headers, descriptions, and multi-select \
     choices. Use this tool when you need clarification, confirmation, or \
     user input to proceed with a task.";

/// Asking is always allowed: the user's answer is the permission.
pub fn ask_check_permissions() -> (r: PermissionCheckResult)
    ensures
        r.behavior == crate::tool::PermissionBehavior::Allow,
{
    PermissionCheckResult::allow()
}

fn entry(key: &str, value: JsonValue) -> (r: (String, JsonValue))
    ensures
        r.0@ == key@,
        r.1 == value,
{
    (String::from_str(key), value)
}

/// A schema property: its type and description.
pub open spec fn typed_view(t: Seq<char>, description: Seq<char>) -> JsonView {
    JsonView::Object(seq![("type"@, text_view(t)), ("description"@, text_view(description))])
}

/// A schema property of type string, without a description.
pub open spec fn string_type_view() -> JsonView {
    JsonView::Object(seq![("type"@, text_view("string"@))])
}

/// The schema of one option: a plain string, or an object with `value`,
/// `label`, `description` and `preview` strings (described in the legacy
/// form, bare in the modern one).
pub open spec fn option_item_view(described: bool) -> JsonView {
    let props = if described {
        seq![
            ("value"@, typed_view("string"@, "The value to return if this option is selected"@)),
            ("label"@, typed_view("string"@, "Optional display label (defaults to value)"@)),
            ("description"@, typed_view("string"@, "Optional explanation of this choice"@)),
            ("preview"@, typed_view("string"@, "Optional preview payload for richer UIs"@)),
        ]
    } else {
        seq![
            ("value"@, string_type_view()),
            ("label"@, string_type_view()),
            ("description"@, string_type_view()),
            ("preview"@, string_type_view()),
        ]
    };
    let object_form = JsonView::Object(seq![("type"@, text_view("object"@)), ("properties"@, JsonView::Object(props))]);
    JsonView::Object(seq![("oneOf"@, JsonView::Array(seq![string_type_view(), object_form]))])
}

/// A schema alternative that requires one key.
pub open spec fn required_view(key: Seq<char>) -> JsonView {
    JsonView::Object(seq![("required"@, JsonView::Array(seq![text_view(key)]))])
}

/// The schema of one entry of `questions`: `question` (required), `header`,
/// `options` and `multiSelect`.
pub open spec fn question_item_view() -> JsonView {
    JsonView::Object(seq![
        ("type"@, text_view("object"@)),
        ("properties"@, JsonView::Object(seq![
            ("question"@, typed_view("string"@, "The full question text shown to the user"@)),
            ("header"@, typed_view("string"@, "Optional short chip/header label"@)),
            ("options"@, JsonView::Object(seq![("type"@, text_view("array"@)), ("items"@, option_item_view(false))])),
            ("multiSelect"@, typed_view("boolean"@, "Whether multiple options can be selected"@)),
        ])),
        ("required"@, JsonView::Array(seq![text_view("question"@)])),
    ])
}

/// The JSON schema of the ask tool's input, whole.
pub open spec fn ask_schema_view() -> JsonView {
    JsonView::Object(seq![
        ("type"@, text_view("object"@)),
        ("properties"@, JsonView::Object(seq![
            ("question"@, typed_view("string"@, "Legacy single-question field. Use `questions` for the richer modern protocol."@)),
            ("header"@, typed_view("string"@, "Optional short chip/header for the legacy single-question format"@)),
            ("options"@, JsonView::Object(seq![
                ("type"@, text_view("array"@)),
                ("description"@, text_view("Optional predefined options for the legacy single-question format"@)),
                ("items"@, option_item_view(true)),
            ])),
            ("multiSelect"@, typed_view("boolean"@, "Whether the legacy single-question format allows selecting multiple options"@)),
            ("questions"@, JsonView::Object(seq![
                ("type"@, text_view("array"@)),
                ("description"@, text_view("Modern ask protocol. Prefer this over the legacy single-question fields."@)),
                ("items"@, question_item_view()),
            ])),
        ])),
        ("oneOf"@, JsonView::Array(seq![required_view("question"@), required_view("questions"@)])),
    ])
}

fn typed(t: &str, description: &str) -> (r: JsonValue)
    ensures
        json_view(r) == typed_view(t@, description@),
{
    let r = json_object(vec![entry("type", json_text(t)), entry("description", json_text(description))]);
    proof {
        assert(json_view(r)->Object_0 =~= typed_view(t@, description@)->Object_0);
    }
    r
}

fn string_type() -> (r: JsonValue)
    ensures
        json_view(r) == string_type_view(),
{
    let r = json_object(vec![entry("type", json_text("string"))]);
    proof {
        assert(json_view(r)->Object_0 =~= string_type_view()->Object_0);
    }
    r
}

fn option_item_schema(described: bool) -> (r: JsonValue)
    ensures
        json_view(r) == option_item_view(described),
{
    let props = if described {
        json_object(vec![
            entry("value", typed("string", "The value to return if this option is selected")),
            entry("label", typed("string", "Optional display label (defaults to value)")),
            entry("description", typed("string", "Optional explanation of this choice")),
            entry("preview", typed("string", "Optional preview payload for richer UIs")),
        ])
    } else {
        json_object(vec![
            entry("value", string_type()),
            entry("label", string_type()),
            entry("description", string_type()),
            entry("preview", string_type()),
        ])
    };
    let ghost pv = option_item_view(described)->Object_0[0].1->Array_0[1]->Object_0[1].1;
    proof {
        assert(json_view(props)->Object_0 =~= pv->Object_0);
    }
    let object_form = json_object(vec![entry("type", json_text("object")), entry("properties", props)]);
    proof {
        assert(json_view(object_form)->Object_0 =~= option_item_view(described)->Object_0[0].1->Array_0[1]->Object_0);
    }
    let alts = json_array(vec![string_type(), object_form]);
    proof {
        assert(json_view(alts)->Array_0 =~= option_item_view(described)->Object_0[0].1->Array_0);
    }
    let r = json_object(vec![entry("oneOf", alts)]);
    proof {
        assert(json_view(r)->Object_0 =~= option_item_view(described)->Object_0);
    }
    r
}

fn required(key: &str) -> (r: JsonValue)
    ensures
        json_view(r) == required_view(key@),
{
    let ks = json_array(vec![json_text(key)]);
    proof {
        assert(json_view(ks)->Array_0 =~= seq![text_view(key@)]);
    }
    let r = json_object(vec![entry("required", ks)]);
    proof {
        assert(json_view(r)->Object_0 =~= required_view(key@)->Object_0);
    }
    r
}

/// The JSON schema of the tool's input (see `ask_schema_view`): an object
/// with the legacy fields `question`, `header` (strings), `options` (an array
/// of options), `multiSelect` (boolean), the `questions` array of question
/// objects, and a `oneOf` that requires `question` or `questions`.
pub fn ask_input_schema() -> (r: JsonValue)
    ensures
        json_view(r) == ask_schema_view(),
{
    let q_options = json_object(vec![entry("type", json_text("array")), entry("items", option_item_schema(false))]);
    let q_props = json_object(vec![
        entry("question", typed("string", "The full question text shown to the user")),
        entry("header", typed("string", "Optional short chip/header label")),
        entry("options", q_options),
        entry("multiSelect", typed("boolean", "Whether multiple options can be selected")),
    ]);
    let q_required = json_array(vec![json_text("question")]);
    let question_item = json_object(vec![
        entry("type", json_text("object")),
        entry("properties", q_props),
        entry("required", q_required),
    ]);
    proof {
        let qv = question_item_view()->Object_0;
        assert(json_view(q_options)->Object_0 =~= qv[1].1->Object_0[2].1->Object_0);
        assert(json_view(q_props)->Object_0 =~= qv[1].1->Object_0);
        assert(json_view(q_required)->Array_0 =~= qv[2].1->Array_0);
        assert(json_view(question_item)->Object_0 =~= qv);
    }
    let options = json_object(vec![
        entry("type", json_text("array")),
        entry("description", json_text("Optional predefined options for the legacy single-question format")),
        entry("items", option_item_schema(true)),
    ]);
    let questions = json_object(vec![
        entry("type", json_text("array")),
        entry("description", json_text("Modern ask protocol. Prefer this over the legacy single-question fields.")),
        entry("items", question_item),
    ]);
    let properties = json_object(vec![
        entry("question", typed("string", "Legacy single-question field. Use `questions` for the richer modern protocol.")),
        entry("header", typed("string", "Optional short chip/header for the legacy single-question format")),
        entry("options", options),
        entry("multiSelect", typed("boolean", "Whether the legacy single-question format allows selecting multiple options")),
        entry("questions", questions),
    ]);
    let alternatives = json_array(vec![required("question"), required("questions")]);
    let r = json_object(vec![
        entry("type", json_text("object")),
        entry("properties", properties),
        entry("oneOf", alternatives),
    ]);
    proof {
        let sv = ask_schema_view()->Object_0;
        let pv = sv[1].1->Object_0;
        assert(json_view(options)->Object_0 =~= pv[2].1->Object_0);
        assert(json_view(questions)->Object_0 =~= pv[4].1->Object_0);
        assert(json_view(properties)->Object_0 =~= pv);
        assert(json_view(alternatives)->Array_0 =~= sv[2].1->Array_0);
        assert(json_view(r)->Object_0 =~= sv);
    }
    r
}


/// Whether an option answers to `t`: by its value or by the text it shows.
pub open spec fn option_answers(o: AskOptionView, t: Seq<char>) -> bool {
    t == o.value || t == match o.label {
        Some(l) => l,
        None => o.value,
    }
}

proof fn lemma_first_matching(os: Seq<AskOptionView>, t: Seq<char>, i: int)
    requires
        0 <= i <= os.len(),
    ensures
        match first_matching_option(os, t, i) {
            Some(k) => i <= k < os.len() && option_answers(os[k as int], t)
                && forall|j: int| i <= j < k ==> !option_answers(#[trigger] os[j], t),
            None => forall|j: int| i <= j < os.len() ==> !option_answers(#[trigger] os[j], t),
        },
    decreases os.len() - i,
{
    if i < os.len() {
        lemma_first_matching(os, t, i + 1);
    }
}

/// For a lone question answered by plain text, the answer picks the first
/// option whose value or shown text equals the trimmed answer, wherever it
/// stands in the list (the last one included): the result says it came from
/// an option and names that option's index. Where no option answers to it,
/// the result says it came from no option.
pub proof fn lemma_lone_answer_picks_option(q: AskQuestionView, x: String)
    requires
        trim(x@).len() > 0,
    ensures
        forall|k: int|
            0 <= k < q.options.len() && option_answers(q.options[k], trim(x@)) && (forall|j: int|
                0 <= j < k ==> !option_answers(#[trigger] q.options[j], trim(x@)))
                ==> (normalized(seq![q], JsonValue::String(x)) matches Some((_, f, i)) && f && i == Some(k as nat)),
        (forall|j: int| 0 <= j < q.options.len() ==> !option_answers(#[trigger] q.options[j], trim(x@)))
            ==> (normalized(seq![q], JsonValue::String(x)) matches Some((_, f, i)) && !f && i is None),
{
    let qs = seq![q];
    let resp = JsonValue::String(x);
    crate::text::lemma_trim_idempotent(x@);
    assert(answer_text(resp) == Some(trim(x@)));
    let a = resolved_answers(qs, resp);
    assert(a == seq![(q.question, trim(x@))]);
    assert(answer_for(a, q.question) == Some(trim(x@)));
    assert(option_match(q, Some(trim(x@))) == first_matching_option(q.options, trim(x@), 0));
    lemma_first_matching(q.options, trim(x@), 0);
    assert forall|k: int|
        0 <= k < q.options.len() && option_answers(q.options[k], trim(x@)) && (forall|j: int|
            0 <= j < k ==> !option_answers(#[trigger] q.options[j], trim(x@)))
            implies (normalized(qs, resp) matches Some((_, f, i)) && f && i == Some(k as nat)) by {
        match first_matching_option(q.options, trim(x@), 0) {
            Some(m) => {
                if (m as int) < k {
                    assert(!option_answers(q.options[m as int], trim(x@)));
                }
                if k < (m as int) {
                    assert(!option_answers(q.options[k], trim(x@)));
                }
            },
            None => {
                assert(!option_answers(q.options[k], trim(x@)));
            },
        }
    }
    if forall|j: int| 0 <= j < q.options.len() ==> !option_answers(#[trigger] q.options[j], trim(x@)) {
        match first_matching_option(q.options, trim(x@), 0) {
            Some(m) => {
                assert(!option_answers(q.options[m as int], trim(x@)));
            },
            None => {},
        }
    }
}

} // verus!
