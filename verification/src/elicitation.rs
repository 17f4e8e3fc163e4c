//! Bounded MCP form elicitation: the form a server may ask the user to fill in, and the
//! content sent back for the user's answers.

use vstd::prelude::*;

use crate::file_diff::opt_text;
use crate::json::{all_digits, as_str, digits_value, field, get, get_str, json_view, members_view, JsonValue, JsonView};
use crate::text::{bounded, concat, decimal, is_blank_str, push_str, str_eq, take_chars, trim, utf8_len};

verus! {

/// Most characters of an elicitation message or question prompt.
pub const MAX_MESSAGE_CHARS: usize = 4096;

/// Most fields one elicitation form may hold.
pub const MAX_SCHEMA_PROPERTIES: usize = 3;

/// The answer that leaves an optional field out of the response.
pub open spec fn omit_value() -> Seq<char> {
    "__hachimi_mcp_omit__"@
}

/// The JSON type of a form field.
#[derive(PartialEq, Eq, Structural, Clone, Copy, Debug)]
pub enum FieldKind {
    String,
    Boolean,
    Number,
    Integer,
}

/// One choice offered for a question.
#[derive(Debug)]
pub struct UserInputOption {
    pub label: String,
    pub value: String,
    pub description: Option<String>,
}

/// One question put to the user.
#[derive(Debug)]
pub struct UserInputQuestion {
    pub id: String,
    pub header: String,
    pub prompt: String,
    pub options: Vec<UserInputOption>,
    pub secret: bool,
    pub default_answer: Option<String>,
}

/// A field of the form: its name, its type, and whether the server may go without it.
#[derive(Debug)]
pub struct ElicitationField {
    pub id: String,
    pub kind: FieldKind,
    pub optional: bool,
}

/// A validated form: one question per field, in the order of the schema's properties.
#[derive(Debug)]
pub struct ElicitationForm {
    pub questions: Vec<UserInputQuestion>,
    pub fields: Vec<ElicitationField>,
}

pub type OptionView = (Seq<char>, Seq<char>, Option<Seq<char>>);

pub open spec fn option_view(o: UserInputOption) -> OptionView {
    (o.label@, o.value@, opt_text(o.description))
}

pub open spec fn option_views(v: Seq<UserInputOption>) -> Seq<OptionView> {
    v.map_values(|o: UserInputOption| option_view(o))
}

/// The mathematical value of a question.
pub struct QuestionView {
    pub id: Seq<char>,
    pub header: Seq<char>,
    pub prompt: Seq<char>,
    pub options: Seq<OptionView>,
    pub secret: bool,
    pub default_answer: Option<Seq<char>>,
}

pub open spec fn question_view(q: UserInputQuestion) -> QuestionView {
    QuestionView {
        id: q.id@,
        header: q.header@,
        prompt: q.prompt@,
        options: option_views(q.options@),
        secret: q.secret,
        default_answer: opt_text(q.default_answer),
    }
}

pub type FieldView = (Seq<char>, FieldKind, bool);

pub open spec fn field_view(f: ElicitationField) -> FieldView {
    (f.id@, f.kind, f.optional)
}

/// Questions and fields as a sequence of (question, field) pairs.
pub open spec fn pairs_of(questions: Seq<UserInputQuestion>, fields: Seq<ElicitationField>) -> Seq<(QuestionView, FieldView)> {
    Seq::new(questions.len(), |i: int| (question_view(questions[i]), field_view(fields[i])))
}

/// The form as a sequence of (question, field) pairs.
pub open spec fn form_view(f: ElicitationForm) -> Seq<(QuestionView, FieldView)> {
    pairs_of(f.questions@, f.fields@)
}

// ---------------------------------------------------------------------------------------------
// The form's rules
// ---------------------------------------------------------------------------------------------

/// A string member that is not blank.
pub open spec fn nonblank_str(v: Option<JsonValue>) -> Option<Seq<char>> {
    match as_str(v) {
        Some(t) => if trim(t).len() > 0 { Some(t) } else { None },
        None => None,
    }
}

/// The kind named by a field schema's `type`.
pub open spec fn kind_of(schema: JsonValue) -> Option<FieldKind> {
    match as_str(field(schema, "type"@)) {
        Some(t) => if t == "string"@ {
            Some(FieldKind::String)
        } else if t == "boolean"@ {
            Some(FieldKind::Boolean)
        } else if t == "number"@ {
            Some(FieldKind::Number)
        } else if t == "integer"@ {
            Some(FieldKind::Integer)
        } else {
            None
        },
        None => None,
    }
}

pub open spec fn yes_no() -> Seq<OptionView> {
    seq![("Yes"@, "true"@, None), ("No"@, "false"@, None)]
}

pub open spec fn skip_option() -> OptionView {
    ("Skip"@, omit_value(), Some("Do not include this optional field in the MCP response."@))
}

pub open spec fn all_strings(items: Seq<JsonValue>) -> bool {
    forall|i: int| 0 <= i < items.len() ==> (#[trigger] items[i]) is String
}

/// An enum value as a choice: its label cut to 80 characters, its value to 4000.
pub open spec fn enum_option(v: JsonValue) -> OptionView {
    match v {
        JsonValue::String(s) => (take_chars(s@, 80), take_chars(s@, 4000), None),
        _ => (Seq::empty(), Seq::empty(), None),
    }
}

/// The choices of a field: yes and no for a boolean, the two or three string values of an
/// `enum`, or none.
pub open spec fn options_of(kind: FieldKind, schema: JsonValue) -> Result<Seq<OptionView>, Seq<char>> {
    if kind == FieldKind::Boolean {
        Ok(yes_no())
    } else {
        match field(schema, "enum"@) {
            Some(JsonValue::Array(items)) => if items@.len() < 2 || items@.len() > 3 {
                Err("elicitation enum must contain two or three values"@)
            } else if !all_strings(items@) {
                Err("elicitation enum values must be strings"@)
            } else {
                Ok(items@.map_values(|v: JsonValue| enum_option(v)))
            },
            _ => Ok(Seq::empty()),
        }
    }
}

pub open spec fn string_is(v: JsonValue, s: Seq<char>) -> bool {
    match v {
        JsonValue::String(t) => t@ == s,
        _ => false,
    }
}

/// Some item is the string `id`.
pub open spec fn names_contain(items: Seq<JsonValue>, id: Seq<char>) -> bool {
    exists|i: int| 0 <= i < items.len() && #[trigger] string_is(items[i], id)
}

/// The schema's `required` array names the field.
pub open spec fn is_required(schema: JsonValue, id: Seq<char>) -> bool {
    match field(schema, "required"@) {
        Some(JsonValue::Array(items)) => names_contain(items@, id),
        _ => false,
    }
}

/// A field's default value as an answer.
pub open spec fn default_answer_of(v: Option<JsonValue>) -> Option<Seq<char>> {
    match v {
        Some(JsonValue::String(s)) => Some(s@),
        Some(JsonValue::Bool(b)) => Some(if b { "true"@ } else { "false"@ }),
        Some(JsonValue::Number(n)) => Some(n@),
        _ => None,
    }
}

/// The prompt of a question: a warning that names the server, the message, and the field's
/// description (cut to 2048 characters) when it has one, all cut to `MAX_MESSAGE_CHARS`.
pub open spec fn prompt_of(server: Seq<char>, message: Seq<char>, fs: JsonValue) -> Seq<char> {
    let body = match nonblank_str(field(fs, "description"@)) {
        Some(d) => message + "\n\n"@ + take_chars(d, 2048),
        None => message,
    };
    take_chars(
        "MCP server "@ + server + " requests untrusted data. This does not grant permission.\n\n"@ + body,
        MAX_MESSAGE_CHARS as nat,
    )
}

/// The question and field for the property `id` with schema `fs`.
pub open spec fn question_of(
    server: Seq<char>,
    message: Seq<char>,
    id: Seq<char>,
    fs: JsonValue,
    schema: JsonValue,
) -> Result<(QuestionView, FieldView), Seq<char>> {
    if trim(id).len() == 0 || utf8_len(id) > 64 {
        Err("elicitation field name is invalid"@)
    } else if !(fs is Object) {
        Err("elicitation field "@ + id + " is not an object"@)
    } else {
        match kind_of(fs) {
            None => Err("elicitation field "@ + id + " uses an unsupported type"@),
            Some(kind) => {
                let optional = !is_required(schema, id);
                let secret = kind == FieldKind::String && as_str(field(fs, "format"@)) == Some("password"@);
                match options_of(kind, fs) {
                    Err(e) => Err(e),
                    Ok(options) => if optional && !secret && options.len() >= 3 {
                        Err("optional elicitation field "@ + id + " has no room for a skip option"@)
                    } else {
                        let title = match nonblank_str(field(fs, "title"@)) {
                            Some(t) => t,
                            None => id,
                        };
                        Ok(
                            (
                                QuestionView {
                                    id,
                                    header: take_chars(title, 64),
                                    prompt: prompt_of(server, message, fs),
                                    options: if optional && !secret { options.push(skip_option()) } else { options },
                                    secret,
                                    default_answer: if secret { None } else { default_answer_of(field(fs, "default"@)) },
                                },
                                (id, kind, optional),
                            ),
                        )
                    },
                }
            },
        }
    }
}

/// The questions of the first `n` properties, or the first property's error.
pub open spec fn questions_upto(
    server: Seq<char>,
    message: Seq<char>,
    schema: JsonValue,
    props: Seq<(String, JsonValue)>,
    n: int,
) -> Result<Seq<(QuestionView, FieldView)>, Seq<char>>
    decreases n,
{
    if n <= 0 {
        Ok(Seq::empty())
    } else {
        match questions_upto(server, message, schema, props, n - 1) {
            Err(e) => Err(e),
            Ok(s) => match question_of(server, message, props[n - 1].0@, props[n - 1].1, schema) {
                Err(e) => Err(e),
                Ok(q) => Ok(s.push(q)),
            },
        }
    }
}

/// The form a server's elicitation parameters describe, or why they are refused.
pub open spec fn form_of(server: Seq<char>, params: JsonValue) -> Result<Seq<(QuestionView, FieldView)>, Seq<char>> {
    if !(params is Object) {
        Err("elicitation params must be an object"@)
    } else if (match as_str(field(params, "mode"@)) {
        Some(m) => m != "form"@,
        None => false,
    }) {
        Err("only bounded MCP form elicitation is supported"@)
    } else {
        match nonblank_str(field(params, "message"@)) {
            None => Err("elicitation message is missing"@),
            Some(m) => {
                let message = take_chars(m, MAX_MESSAGE_CHARS as nat);
                match field(params, "requestedSchema"@) {
                    Some(schema) => if !(schema is Object) {
                        Err("elicitation requestedSchema must be an object"@)
                    } else if as_str(field(schema, "type"@)) != Some("object"@) {
                        Err("elicitation schema type must be object"@)
                    } else {
                        match field(schema, "properties"@) {
                            Some(JsonValue::Object(props)) => if props@.len() == 0 || props@.len()
                                > MAX_SCHEMA_PROPERTIES {
                                Err("elicitation must contain one to three fields"@)
                            } else {
                                questions_upto(server, message, schema, props@, props@.len() as int)
                            },
                            _ => Err("elicitation schema properties are missing"@),
                        }
                    },
                    None => Err("elicitation requestedSchema must be an object"@),
                }
            },
        }
    }
}

// ---------------------------------------------------------------------------------------------
// Building the form
// ---------------------------------------------------------------------------------------------

fn nonblank_member<'a>(value: &'a JsonValue, key: &str) -> (out: Option<&'a String>)
    ensures
        match out {
            Some(s) => nonblank_str(field(*value, key@)) == Some(s@),
            None => nonblank_str(field(*value, key@)) is None,
        },
{
    match get_str(value, key) {
        Some(s) => if is_blank_str(s.as_str()) { None } else { Some(s) },
        None => None,
    }
}

fn field_kind(schema: &JsonValue) -> (out: Option<FieldKind>)
    ensures
        out == kind_of(*schema),
{
    proof {
        reveal_strlit("string");
        reveal_strlit("boolean");
        reveal_strlit("number");
        reveal_strlit("integer");
    }
    match get_str(schema, "type") {
        Some(t) => if str_eq(t.as_str(), "string") {
            Some(FieldKind::String)
        } else if str_eq(t.as_str(), "boolean") {
            Some(FieldKind::Boolean)
        } else if str_eq(t.as_str(), "number") {
            Some(FieldKind::Number)
        } else if str_eq(t.as_str(), "integer") {
            Some(FieldKind::Integer)
        } else {
            None
        },
        None => None,
    }
}

fn choice(label: &str, value: &str) -> (o: UserInputOption)
    ensures
        option_view(o) == (label@, value@, None::<Seq<char>>),
{
    UserInputOption { label: label.to_owned(), value: value.to_owned(), description: None }
}

/// The choices of a field (see `options_of`).
pub fn field_options(kind: FieldKind, schema: &JsonValue) -> (out: Result<Vec<UserInputOption>, String>)
    ensures
        match out {
            Ok(v) => options_of(kind, *schema) == Ok::<Seq<OptionView>, Seq<char>>(option_views(v@)),
            Err(e) => options_of(kind, *schema) == Err::<Seq<OptionView>, Seq<char>>(e@),
        },
{
    if kind == FieldKind::Boolean {
        let v = vec![choice("Yes", "true"), choice("No", "false")];
        assert(option_views(v@) =~= yes_no());
        return Ok(v);
    }
    match get(schema, "enum") {
        Some(JsonValue::Array(items)) => {
            if items.len() < 2 || items.len() > 3 {
                return Err("elicitation enum must contain two or three values".to_owned());
            }
            let mut out: Vec<UserInputOption> = Vec::new();
            let mut i: usize = 0;
            while i < items.len()
                invariant
                    kind != FieldKind::Boolean,
                    field(*schema, "enum"@) == Some(JsonValue::Array(*items)),
                    2 <= items@.len() <= 3,
                    i <= items@.len(),
                    forall|k: int| 0 <= k < i ==> (#[trigger] items@[k]) is String,
                    option_views(out@) == items@.take(i as int).map_values(|v: JsonValue| enum_option(v)),
                decreases items@.len() - i,
            {
                match &items[i] {
                    JsonValue::String(s) => {
                        let ghost before = out@;
                        out.push(
                            UserInputOption { label: bounded(s.as_str(), 80), value: bounded(s.as_str(), 4000), description: None },
                        );
                        assert(items@.take(i + 1) =~= items@.take(i as int).push(items@[i as int]));
                        assert(option_views(out@) =~= option_views(before).push(enum_option(items@[i as int])));
                    },
                    _ => {
                        assert(!all_strings(items@));
                        return Err("elicitation enum values must be strings".to_owned());
                    },
                }
                i = i + 1;
            }
            assert(items@.take(i as int) =~= items@);
            assert(all_strings(items@));
            Ok(out)
        },
        _ => {
            let out: Vec<UserInputOption> = Vec::new();
            assert(option_views(out@) =~= Seq::empty());
            Ok(out)
        },
    }
}

fn required_by(schema: &JsonValue, id: &String) -> (b: bool)
    ensures
        b == is_required(*schema, id@),
{
    match get(schema, "required") {
        Some(JsonValue::Array(items)) => {
            let mut i: usize = 0;
            while i < items.len()
                invariant
                    field(*schema, "required"@) == Some(JsonValue::Array(*items)),
                    i <= items@.len(),
                    forall|k: int| 0 <= k < i ==> !string_is(#[trigger] items@[k], id@),
                decreases items@.len() - i,
            {
                match &items[i] {
                    JsonValue::String(s) => {
                        if str_eq(s.as_str(), id.as_str()) {
                            assert(items@[i as int] == JsonValue::String(*s));
                            assert(string_is(items@[i as int], id@));
                            assert(names_contain(items@, id@));
                            return true;
                        }
                    },
                    _ => {},
                }
                i = i + 1;
            }
            false
        },
        _ => false,
    }
}

/// `default_to_answer`: a string default as it is, a boolean or number as its JSON text.
pub fn default_to_answer(value: Option<&JsonValue>) -> (out: Option<String>)
    ensures
        opt_text(out) == default_answer_of(
            match value {
                Some(v) => Some(*v),
                None => None,
            },
        ),
{
    match value {
        Some(JsonValue::String(s)) => Some(s.clone()),
        Some(JsonValue::Bool(b)) => Some(if *b { "true".to_owned() } else { "false".to_owned() }),
        Some(JsonValue::Number(n)) => Some(n.clone()),
        _ => None,
    }
}

fn question_prompt(server_id: &str, message: &String, fs: &JsonValue) -> (out: String)
    ensures
        out@ == prompt_of(server_id@, message@, *fs),
{
    let mut full = "MCP server ".to_owned();
    push_str(&mut full, server_id);
    push_str(&mut full, " requests untrusted data. This does not grant permission.\n\n");
    push_str(&mut full, message.as_str());
    match nonblank_member(fs, "description") {
        Some(d) => {
            push_str(&mut full, "\n\n");
            let cut = bounded(d.as_str(), 2048);
            push_str(&mut full, cut.as_str());
        },
        None => {},
    }
    bounded(full.as_str(), MAX_MESSAGE_CHARS)
}

fn build_question(server_id: &str, message: &String, id: &String, fs: &JsonValue, schema: &JsonValue) -> (out: Result<
    (UserInputQuestion, ElicitationField),
    String,
>)
    ensures
        match out {
            Ok((q, f)) => question_of(server_id@, message@, id@, *fs, *schema) == Ok::<
                (QuestionView, FieldView),
                Seq<char>,
            >((question_view(q), field_view(f))),
            Err(e) => question_of(server_id@, message@, id@, *fs, *schema) == Err::<
                (QuestionView, FieldView),
                Seq<char>,
            >(e@),
        },
{
    proof {
        reveal_strlit("password");
    }
    let id_chars = crate::text::chars_of(id.as_str());
    if is_blank_str(id.as_str()) || crate::text::utf8_len_exceeds(&id_chars, 64) {
        return Err("elicitation field name is invalid".to_owned());
    }
    match fs {
        JsonValue::Object(_) => {},
        _ => {
            let mut e = "elicitation field ".to_owned();
            push_str(&mut e, id.as_str());
            push_str(&mut e, " is not an object");
            assert(e@ =~= "elicitation field "@ + id@ + " is not an object"@);
            return Err(e);
        },
    }
    let kind = match field_kind(fs) {
        Some(k) => k,
        None => {
            let mut e = "elicitation field ".to_owned();
            push_str(&mut e, id.as_str());
            push_str(&mut e, " uses an unsupported type");
            assert(e@ =~= "elicitation field "@ + id@ + " uses an unsupported type"@);
            return Err(e);
        },
    };
    let optional = !required_by(schema, id);
    let secret = kind == FieldKind::String && match get_str(fs, "format") {
        Some(f) => str_eq(f.as_str(), "password"),
        None => false,
    };
    let mut options = match field_options(kind, fs) {
        Ok(o) => o,
        Err(e) => return Err(e),
    };
    if optional && !secret {
        if options.len() >= 3 {
            let mut e = "optional elicitation field ".to_owned();
            push_str(&mut e, id.as_str());
            push_str(&mut e, " has no room for a skip option");
            assert(e@ =~= "optional elicitation field "@ + id@ + " has no room for a skip option"@);
            return Err(e);
        }
        let ghost before = options@;
        options.push(
            UserInputOption {
                label: "Skip".to_owned(),
                value: "__hachimi_mcp_omit__".to_owned(),
                description: Some("Do not include this optional field in the MCP response.".to_owned()),
            },
        );
        assert(option_views(options@) =~= option_views(before).push(skip_option()));
    }
    let title = match nonblank_member(fs, "title") {
        Some(t) => bounded(t.as_str(), 64),
        None => bounded(id.as_str(), 64),
    };
    let default_answer = if secret { None } else { default_to_answer(get(fs, "default")) };
    let question = UserInputQuestion {
        id: id.clone(),
        header: title,
        prompt: question_prompt(server_id, message, fs),
        options,
        secret,
        default_answer,
    };
    Ok((question, ElicitationField { id: id.clone(), kind, optional }))
}

proof fn lemma_error_persists(
    server: Seq<char>,
    message: Seq<char>,
    schema: JsonValue,
    props: Seq<(String, JsonValue)>,
    k: int,
    n: int,
)
    requires
        0 <= k <= n,
        questions_upto(server, message, schema, props, k) is Err,
    ensures
        questions_upto(server, message, schema, props, n) == questions_upto(server, message, schema, props, k),
    decreases n - k,
{
    if k < n {
        lemma_error_persists(server, message, schema, props, k, n - 1);
    }
}

/// Validates a server's form elicitation (see `form_of`): at most three typed fields, each
/// turned into a question that warns the user that the data goes to the named server.
#[verifier::rlimit(30)]
pub fn parse_form(server_id: &str, params: &JsonValue) -> (out: Result<ElicitationForm, String>)
    ensures
        match out {
            Ok(f) => f.questions@.len() == f.fields@.len() && form_of(server_id@, *params) == Ok::<
                Seq<(QuestionView, FieldView)>,
                Seq<char>,
            >(form_view(f)),
            Err(e) => form_of(server_id@, *params) == Err::<Seq<(QuestionView, FieldView)>, Seq<char>>(e@),
        },
{
    proof {
        reveal_strlit("form");
        reveal_strlit("object");
    }
    match params {
        JsonValue::Object(_) => {},
        _ => return Err("elicitation params must be an object".to_owned()),
    }
    match get_str(params, "mode") {
        Some(m) => if !str_eq(m.as_str(), "form") {
            return Err("only bounded MCP form elicitation is supported".to_owned());
        },
        None => {},
    }
    let message = match nonblank_member(params, "message") {
        Some(m) => bounded(m.as_str(), MAX_MESSAGE_CHARS),
        None => return Err("elicitation message is missing".to_owned()),
    };
    let schema = match get(params, "requestedSchema") {
        Some(s) => s,
        None => return Err("elicitation requestedSchema must be an object".to_owned()),
    };
    match schema {
        JsonValue::Object(_) => {},
        _ => return Err("elicitation requestedSchema must be an object".to_owned()),
    }
    let is_object_type = match get_str(schema, "type") {
        Some(t) => str_eq(t.as_str(), "object"),
        None => false,
    };
    if !is_object_type {
        return Err("elicitation schema type must be object".to_owned());
    }
    let props = match get(schema, "properties") {
        Some(JsonValue::Object(props)) => props,
        _ => return Err("elicitation schema properties are missing".to_owned()),
    };
    if props.len() == 0 || props.len() > MAX_SCHEMA_PROPERTIES {
        return Err("elicitation must contain one to three fields".to_owned());
    }
    let mut questions: Vec<UserInputQuestion> = Vec::new();
    let mut fields: Vec<ElicitationField> = Vec::new();
    let mut i: usize = 0;
    assert(pairs_of(questions@, fields@) =~= Seq::empty());
    while i < props.len()
        invariant
            form_of(server_id@, *params) == questions_upto(server_id@, message@, *schema, props@, props@.len() as int),
            i <= props@.len(),
            questions@.len() == i,
            fields@.len() == i,
            questions_upto(server_id@, message@, *schema, props@, i as int) == Ok::<
                Seq<(QuestionView, FieldView)>,
                Seq<char>,
            >(pairs_of(questions@, fields@)),
        decreases props@.len() - i,
    {
        match build_question(server_id, &message, &props[i].0, &props[i].1, schema) {
            Ok((q, f)) => {
                let ghost before = pairs_of(questions@, fields@);
                questions.push(q);
                fields.push(f);
                assert(pairs_of(questions@, fields@) =~= before.push(
                    (question_view(q), field_view(f)),
                ));
            },
            Err(e) => {
                proof {
                    lemma_error_persists(server_id@, message@, *schema, props@, i + 1, props@.len() as int);
                }
                return Err(e);
            },
        }
        i = i + 1;
    }
    Ok(ElicitationForm { questions, fields })
}

// ---------------------------------------------------------------------------------------------
// Answers
// ---------------------------------------------------------------------------------------------

/// `i64::from_str`: an optional sign, then one or more ASCII digits, within the range of `i64`.
pub open spec fn signed_value(s: Seq<char>) -> Option<int> {
    let signed = s.len() > 0 && (s[0] == '+' || s[0] == '-');
    let digits = if signed { s.skip(1) } else { s };
    if digits.len() == 0 || !all_digits(digits) {
        None
    } else {
        let v = if signed && s[0] == '-' { -(digits_value(digits) as int) } else { digits_value(digits) as int };
        if i64::MIN <= v <= i64::MAX { Some(v) } else { None }
    }
}

/// The JSON text of an integer.
pub open spec fn integer_text(v: int) -> Seq<char> {
    if v < 0 { "-"@ + decimal((-v) as nat) } else { decimal(v as nat) }
}

/// The JSON number text of an integer answer, when it parses as an `i64`.
pub fn integer_answer_text(answer: &str) -> (out: Option<String>)
    ensures
        match out {
            Some(t) => signed_value(answer@) matches Some(v) && t@ == integer_text(v),
            None => signed_value(answer@) is None,
        },
{
    let chars = crate::text::chars_of(answer);
    let signed = chars.len() > 0 && (chars[0] == '+' || chars[0] == '-');
    let negative = signed && chars[0] == '-';
    let mut digits = String::new();
    let start: usize = if signed { 1 } else { 0 };
    crate::text::push_chars(&mut digits, &chars, start, chars.len());
    assert(digits@ =~= (if signed { answer@.skip(1) } else { answer@ }));
    let magnitude = match crate::json::parse_u64_digits(digits.as_str()) {
        Some(m) => m,
        None => {
            proof {
                if digits@.len() > 0 && all_digits(digits@) {
                    assert(digits_value(digits@) > u64::MAX);
                }
            }
            return None;
        },
    };
    if negative {
        if magnitude > 9223372036854775808u64 {
            return None;
        }
        if magnitude == 0 {
            return Some(crate::text::decimal_string(0));
        }
        let mut t = "-".to_owned();
        crate::text::push_decimal(&mut t, magnitude);
        assert(t@ =~= "-"@ + decimal(magnitude as nat));
        Some(t)
    } else {
        if magnitude > 9223372036854775807u64 {
            return None;
        }
        Some(crate::text::decimal_string(magnitude))
    }
}

/// The last answer given for a question.
pub open spec fn answer_for(answers: Seq<(String, String)>, id: Seq<char>) -> Option<Seq<char>>
    decreases answers.len(),
{
    if answers.len() == 0 {
        None
    } else if answers.last().0@ == id {
        Some(answers.last().1@)
    } else {
        answer_for(answers.drop_last(), id)
    }
}

fn find_answer<'a>(answers: &'a Vec<(String, String)>, id: &String) -> (out: Option<&'a String>)
    ensures
        match out {
            Some(a) => answer_for(answers@, id@) == Some(a@),
            None => answer_for(answers@, id@) is None,
        },
{
    let mut i = answers.len();
    assert(answers@.take(i as int) =~= answers@);
    while i > 0
        invariant
            i <= answers@.len(),
            answer_for(answers@, id@) == answer_for(answers@.take(i as int), id@),
        decreases i,
    {
        proof {
            assert(answers@.take(i as int).drop_last() =~= answers@.take(i - 1));
            assert(answers@.take(i as int).last() == answers@[i - 1]);
        }
        if str_eq(answers[i - 1].0.as_str(), id.as_str()) {
            return Some(&answers[i - 1].1);
        }
        i = i - 1;
    }
    None
}

/// The member one field contributes: nothing for a skipped optional field, otherwise its
/// answer as a string, a boolean, the number the number parser gave, or an `i64`.
pub open spec fn member_of(field: FieldView, answer: Option<Seq<char>>, number: Option<JsonView>) -> Result<
    Option<(Seq<char>, JsonView)>,
    Seq<char>,
> {
    let id = field.0;
    match answer {
        None => Err("elicitation answer for "@ + id + " is missing"@),
        Some(a) => if a == omit_value() && field.2 {
            Ok(None)
        } else {
            match field.1 {
                FieldKind::String => Ok(Some((id, JsonView::Str(a)))),
                FieldKind::Boolean => if a == "true"@ {
                    Ok(Some((id, JsonView::Bool(true))))
                } else if a == "false"@ {
                    Ok(Some((id, JsonView::Bool(false))))
                } else {
                    Err("elicitation answer for "@ + id + " is not boolean"@)
                },
                FieldKind::Number => match number {
                    Some(v) => Ok(Some((id, v))),
                    None => Err("elicitation answer for "@ + id + " is not a number"@),
                },
                FieldKind::Integer => match signed_value(a) {
                    Some(v) => Ok(Some((id, JsonView::Number(integer_text(v))))),
                    None => Err("elicitation answer for "@ + id + " is not an integer"@),
                },
            }
        },
    }
}

/// The content members of the first `n` fields, or the first field's error; `numbers[i]` is
/// what the number parser gave for field `i`.
pub open spec fn content_upto(
    fields: Seq<FieldView>,
    answers: Seq<(String, String)>,
    numbers: Seq<Option<JsonView>>,
    n: int,
) -> Result<Seq<(Seq<char>, JsonView)>, Seq<char>>
    decreases n,
{
    if n <= 0 {
        Ok(Seq::empty())
    } else {
        match content_upto(fields, answers, numbers, n - 1) {
            Err(e) => Err(e),
            Ok(m) => match member_of(fields[n - 1], answer_for(answers, fields[n - 1].0), numbers[n - 1]) {
                Err(e) => Err(e),
                Ok(None) => Ok(m),
                Ok(Some(p)) => Ok(m.push(p)),
            },
        }
    }
}

/// The number parser is asked about field `i`: every earlier field was fine and field `i` is
/// a number field with an answer that does not skip it.
pub open spec fn number_asked(
    fields: Seq<FieldView>,
    answers: Seq<(String, String)>,
    numbers: Seq<Option<JsonView>>,
    i: int,
) -> bool {
    &&& content_upto(fields, answers, numbers, i) is Ok
    &&& fields[i].1 == FieldKind::Number
    &&& answer_for(answers, fields[i].0) matches Some(a) && !(a == omit_value() && fields[i].2)
}

pub open spec fn opt_json(v: Option<JsonValue>) -> Option<JsonView> {
    match v {
        Some(j) => Some(json_view(j)),
        None => None,
    }
}

/// `r` is a result the number parser `f` may give for the text `a`.
pub open spec fn number_parsed<F: Fn(&str) -> Option<JsonValue>>(f: F, a: Seq<char>, r: Option<JsonView>) -> bool {
    exists|s: &str, v: Option<JsonValue>| s@ == a && call_ensures(f, (s,), v) && r == opt_json(v)
}

/// `numbers` holds, for every field the parser was asked about, what it answered.
pub open spec fn numbers_from<F: Fn(&str) -> Option<JsonValue>>(
    f: F,
    fields: Seq<FieldView>,
    answers: Seq<(String, String)>,
    numbers: Seq<Option<JsonView>>,
) -> bool {
    &&& numbers.len() == fields.len()
    &&& forall|i: int|
        0 <= i < fields.len() && #[trigger] number_asked(fields, answers, numbers, i) ==> number_parsed(
            f,
            answer_for(answers, fields[i].0).unwrap(),
            numbers[i],
        )
}

pub open spec fn field_views(v: Seq<ElicitationField>) -> Seq<FieldView> {
    v.map_values(|f: ElicitationField| field_view(f))
}

proof fn lemma_content_prefix(
    fields: Seq<FieldView>,
    answers: Seq<(String, String)>,
    a: Seq<Option<JsonView>>,
    b: Seq<Option<JsonView>>,
    k: int,
)
    requires
        forall|j: int| 0 <= j < k ==> a[j] == b[j],
    ensures
        content_upto(fields, answers, a, k) == content_upto(fields, answers, b, k),
    decreases k,
{
    if k > 0 {
        lemma_content_prefix(fields, answers, a, b, k - 1);
    }
}

proof fn lemma_content_error_persists(
    fields: Seq<FieldView>,
    answers: Seq<(String, String)>,
    numbers: Seq<Option<JsonView>>,
    k: int,
    n: int,
)
    requires
        0 <= k <= n,
        content_upto(fields, answers, numbers, k) is Err,
    ensures
        content_upto(fields, answers, numbers, n) == content_upto(fields, answers, numbers, k),
    decreases n - k,
{
    if k < n {
        lemma_content_error_persists(fields, answers, numbers, k, n - 1);
    }
}

fn answer_error(id: &String, what: &str) -> (e: String)
    ensures
        e@ == "elicitation answer for "@ + id@ + what@,
{
    let mut e = "elicitation answer for ".to_owned();
    push_str(&mut e, id.as_str());
    push_str(&mut e, what);
    e
}

/// `answers_to_content`: the content object sent back for the user's answers, one member per
/// answered field in form order (see `content_upto`); number answers go through
/// `parse_number`.
#[verifier::rlimit(40)]
pub fn answers_to_content<F: Fn(&str) -> Option<JsonValue>>(
    form: &ElicitationForm,
    answers: &Vec<(String, String)>,
    parse_number: F,
) -> (out: Result<JsonValue, String>)
    requires
        forall|s: &str| call_requires(parse_number, (s,)),
    ensures
        exists|numbers: Seq<Option<JsonView>>| {
            &&& numbers_from(parse_number, field_views(form.fields@), answers@, numbers)
            &&& match out {
                Ok(v) => content_upto(field_views(form.fields@), answers@, numbers, form.fields@.len() as int)
                    matches Ok(m) && json_view(v) == JsonView::Object(m),
                Err(e) => content_upto(field_views(form.fields@), answers@, numbers, form.fields@.len() as int)
                    == Err::<Seq<(Seq<char>, JsonView)>, Seq<char>>(e@),
            }
        },
{
    proof {
        reveal_strlit("true");
        reveal_strlit("false");
        reveal_strlit("__hachimi_mcp_omit__");
    }
    let ghost fv = field_views(form.fields@);
    let ghost n = form.fields@.len() as int;
    let ghost mut numbers: Seq<Option<JsonView>> = Seq::new(n as nat, |i: int| None::<JsonView>);
    let mut members: Vec<(String, JsonValue)> = Vec::new();
    let mut i: usize = 0;
    proof {
        crate::budget::lemma_members_view(members@);
        assert(members_view(members@) =~= Seq::empty());
    }
    while i < form.fields.len()
        invariant
            fv == field_views(form.fields@),
            n == form.fields@.len(),
            fv.len() == n,
            numbers.len() == n,
            i <= n,
            forall|s: &str| call_requires(parse_number, (s,)),
            forall|j: int| i <= j < n ==> numbers[j] is None,
            forall|j: int|
                0 <= j < i && #[trigger] number_asked(fv, answers@, numbers, j) ==> number_parsed(
                    parse_number,
                    answer_for(answers@, fv[j].0).unwrap(),
                    numbers[j],
                ),
            content_upto(fv, answers@, numbers, i as int) == Ok::<Seq<(Seq<char>, JsonView)>, Seq<char>>(
                members_view(members@),
            ),
        decreases n - i,
    {
        let f = &form.fields[i];
        assert(fv[i as int] == field_view(*f));
        let ghost before = members_view(members@);
        let ghost old_numbers = numbers;
        let answer = match find_answer(answers, &f.id) {
            Some(a) => a,
            None => {
                let e = answer_error(&f.id, " is missing");
                proof {
                    assert(content_upto(fv, answers@, numbers, i + 1) == Err::<Seq<(Seq<char>, JsonView)>, Seq<char>>(e@));
                    lemma_content_error_persists(fv, answers@, numbers, i + 1, n);
                    assert forall|j: int| 0 <= j < n && #[trigger] number_asked(fv, answers@, numbers, j) implies number_parsed(
                        parse_number,
                        answer_for(answers@, fv[j].0).unwrap(),
                        numbers[j],
                    ) by {
                        if j > i {
                            lemma_content_error_persists(fv, answers@, numbers, i + 1, j);
                        }
                    }
                    assert(numbers_from(parse_number, fv, answers@, numbers));
                }
                return Err(e);
            },
        };
        if str_eq(answer.as_str(), "__hachimi_mcp_omit__") && f.optional {
            proof {
                assert(content_upto(fv, answers@, numbers, i + 1) == content_upto(fv, answers@, numbers, i as int));
            }
        } else {
            let value = match f.kind {
                FieldKind::String => JsonValue::String(answer.clone()),
                FieldKind::Boolean => if str_eq(answer.as_str(), "true") {
                    JsonValue::Bool(true)
                } else if str_eq(answer.as_str(), "false") {
                    JsonValue::Bool(false)
                } else {
                    let e = answer_error(&f.id, " is not boolean");
                    proof {
                        assert(content_upto(fv, answers@, numbers, i + 1) == Err::<Seq<(Seq<char>, JsonView)>, Seq<char>>(e@));
                        assert forall|j: int| 0 <= j < n && #[trigger] number_asked(fv, answers@, numbers, j) implies number_parsed(
                            parse_number,
                            answer_for(answers@, fv[j].0).unwrap(),
                            numbers[j],
                        ) by {
                            if j > i {
                                lemma_content_error_persists(fv, answers@, numbers, i + 1, j);
                            }
                        }
                        lemma_content_error_persists(fv, answers@, numbers, i + 1, n);
                        assert(numbers_from(parse_number, fv, answers@, numbers));
                    }
                    return Err(e);
                },
                FieldKind::Number => {
                    let parsed = parse_number(answer.as_str());
                    proof {
                        numbers = numbers.update(i as int, opt_json(parsed));
                        lemma_content_prefix(fv, answers@, numbers, old_numbers, i as int);
                        assert forall|j: int| 0 <= j < i && #[trigger] number_asked(fv, answers@, numbers, j) implies number_parsed(
                            parse_number,
                            answer_for(answers@, fv[j].0).unwrap(),
                            numbers[j],
                        ) by {
                            lemma_content_prefix(fv, answers@, numbers, old_numbers, j);
                            assert(number_asked(fv, answers@, old_numbers, j));
                        }
                        assert(number_parsed(parse_number, answer@, numbers[i as int]));
                    }
                    match parsed {
                        Some(v) => v,
                        None => {
                            let e = answer_error(&f.id, " is not a number");
                            proof {
                                assert(content_upto(fv, answers@, numbers, i + 1) == Err::<Seq<(Seq<char>, JsonView)>, Seq<char>>(e@));
                                assert forall|j: int| 0 <= j < n && #[trigger] number_asked(fv, answers@, numbers, j) implies number_parsed(
                                    parse_number,
                                    answer_for(answers@, fv[j].0).unwrap(),
                                    numbers[j],
                                ) by {
                                    if j > i {
                                        lemma_content_error_persists(fv, answers@, numbers, i + 1, j);
                                    }
                                }
                                lemma_content_error_persists(fv, answers@, numbers, i + 1, n);
                                assert(numbers_from(parse_number, fv, answers@, numbers));
                            }
                            return Err(e);
                        },
                    }
                },
                FieldKind::Integer => match integer_answer_text(answer.as_str()) {
                    Some(t) => JsonValue::Number(t),
                    None => {
                        let e = answer_error(&f.id, " is not an integer");
                        proof {
                            assert(content_upto(fv, answers@, numbers, i + 1) == Err::<Seq<(Seq<char>, JsonView)>, Seq<char>>(e@));
                            assert forall|j: int| 0 <= j < n && #[trigger] number_asked(fv, answers@, numbers, j) implies number_parsed(
                                parse_number,
                                answer_for(answers@, fv[j].0).unwrap(),
                                numbers[j],
                            ) by {
                                if j > i {
                                    lemma_content_error_persists(fv, answers@, numbers, i + 1, j);
                                }
                            }
                            lemma_content_error_persists(fv, answers@, numbers, i + 1, n);
                            assert(numbers_from(parse_number, fv, answers@, numbers));
                        }
                        return Err(e);
                    },
                },
            };
            let ghost pair = (f.id@, json_view(value));
            proof {
                lemma_content_prefix(fv, answers@, numbers, old_numbers, i as int);
                assert(content_upto(fv, answers@, numbers, i + 1) == Ok::<Seq<(Seq<char>, JsonView)>, Seq<char>>(before.push(pair)));
            }
            let ghost mbefore = members@;
            members.push((f.id.clone(), value));
            proof {
                assert(members@.drop_last() =~= mbefore);
                assert(members_view(members@) =~= before.push(pair));
            }
        }
        i = i + 1;
    }
    proof {
        assert(numbers_from(parse_number, fv, answers@, numbers));
    }
    Ok(JsonValue::Object(members))
}

// ---------------------------------------------------------------------------------------------
// Handling a server's request
// ---------------------------------------------------------------------------------------------

/// The answer to an MCP server request.
#[derive(Debug)]
pub enum McpReply {
    MethodNotFound,
    InvalidRequest(String),
    Reply(JsonValue),
}

/// What to do with an elicitation request before anyone is asked.
#[derive(Debug)]
pub enum ElicitationStart {
    /// Answer at once.
    Respond(McpReply),
    /// Nobody can answer: record that the Run needs attention and reply with
    /// `cancel_reply(Some("interactive_input_unavailable"))`.
    NeedsAttention,
    /// Put the form's questions to the user.
    Ask(ElicitationForm),
}

/// How the user resolved the questions.
#[derive(PartialEq, Eq, Structural, Clone, Copy, Debug)]
pub enum UserInputAction {
    Submit,
    Decline,
    Cancel,
}

pub open spec fn action_view(action: Seq<char>) -> JsonView {
    JsonView::Object(seq![("action"@, JsonView::Str(action))])
}

/// `{"action":"cancel"}`, with the reason under `_meta.hachimiReason` when there is one.
pub open spec fn cancel_view(reason: Option<Seq<char>>) -> JsonView {
    match reason {
        Some(r) => JsonView::Object(
            seq![
                ("_meta"@, JsonView::Object(seq![("hachimiReason"@, JsonView::Str(r))])),
                ("action"@, JsonView::Str("cancel"@)),
            ],
        ),
        None => action_view("cancel"@),
    }
}

pub open spec fn accept_view(content: Seq<(Seq<char>, JsonView)>) -> JsonView {
    JsonView::Object(seq![("action"@, JsonView::Str("accept"@)), ("content"@, JsonView::Object(content))])
}

fn text_value(s: &str) -> (v: JsonValue)
    ensures
        json_view(v) == JsonView::Str(s@),
{
    JsonValue::String(s.to_owned())
}

fn object1(k: &str, v: JsonValue) -> (out: JsonValue)
    ensures
        json_view(out) == JsonView::Object(seq![(k@, json_view(v))]),
{
    let members = vec![(k.to_owned(), v)];
    proof {
        crate::budget::lemma_members_view(members@);
        assert(members_view(members@) =~= seq![(k@, json_view(v))]);
    }
    JsonValue::Object(members)
}

fn object2(k1: &str, v1: JsonValue, k2: &str, v2: JsonValue) -> (out: JsonValue)
    ensures
        json_view(out) == JsonView::Object(seq![(k1@, json_view(v1)), (k2@, json_view(v2))]),
{
    let members = vec![(k1.to_owned(), v1), (k2.to_owned(), v2)];
    proof {
        crate::budget::lemma_members_view(members@);
        assert(members_view(members@) =~= seq![(k1@, json_view(v1)), (k2@, json_view(v2))]);
    }
    JsonValue::Object(members)
}

/// The cancel reply (see `cancel_view`).
pub fn cancel_reply(reason: Option<&str>) -> (out: JsonValue)
    ensures
        json_view(out) == cancel_view(
            match reason {
                Some(r) => Some(r@),
                None => None,
            },
        ),
{
    match reason {
        Some(r) => object2("_meta", object1("hachimiReason", text_value(r)), "action", text_value("cancel")),
        None => object1("action", text_value("cancel")),
    }
}

/// The first decision on a server request: only `elicitation/create` is handled; a Run that
/// nobody watches needs attention; the request must be bound to this Run; the form must be
/// valid (see `form_of`).
pub fn start_elicitation(
    method: &str,
    interactive: bool,
    correlation: Option<(&str, &str)>,
    session_id: &str,
    run_id: &str,
    server_id: &str,
    params: &JsonValue,
) -> (out: ElicitationStart)
    ensures
        method@ != "elicitation/create"@ ==> out matches ElicitationStart::Respond(McpReply::MethodNotFound),
        method@ == "elicitation/create"@ && !interactive ==> out is NeedsAttention,
        method@ == "elicitation/create"@ && interactive ==> match correlation {
            None => out matches ElicitationStart::Respond(McpReply::InvalidRequest(m))
                && m@ == "elicitation is not bound to an active Run"@,
            Some((s, r)) => if s@ != session_id@ || r@ != run_id@ {
                out matches ElicitationStart::Respond(McpReply::InvalidRequest(m))
                    && m@ == "elicitation Run correlation is stale"@
            } else {
                match form_of(server_id@, *params) {
                    Ok(v) => out matches ElicitationStart::Ask(f) && f.questions@.len() == f.fields@.len()
                        && form_view(f) == v,
                    Err(e) => out matches ElicitationStart::Respond(McpReply::InvalidRequest(m)) && m@ == e,
                }
            },
        },
{
    if !str_eq(method, "elicitation/create") {
        return ElicitationStart::Respond(McpReply::MethodNotFound);
    }
    if !interactive {
        return ElicitationStart::NeedsAttention;
    }
    match correlation {
        None => ElicitationStart::Respond(McpReply::InvalidRequest("elicitation is not bound to an active Run".to_owned())),
        Some((s, r)) => {
            if !str_eq(s, session_id) || !str_eq(r, run_id) {
                return ElicitationStart::Respond(McpReply::InvalidRequest("elicitation Run correlation is stale".to_owned()));
            }
            match parse_form(server_id, params) {
                Ok(form) => ElicitationStart::Ask(form),
                Err(message) => ElicitationStart::Respond(McpReply::InvalidRequest(message)),
            }
        },
    }
}

/// The reply once the user was asked: no resolution cancels with a reason; a submission
/// accepts with the answers' content (see `answers_to_content`) or is refused with its error;
/// a decline or a cancel is passed on.
pub fn finish_elicitation<F: Fn(&str) -> Option<JsonValue>>(
    form: &ElicitationForm,
    outcome: Option<UserInputAction>,
    answers: &Vec<(String, String)>,
    parse_number: F,
) -> (out: McpReply)
    requires
        forall|s: &str| call_requires(parse_number, (s,)),
    ensures
        outcome is None ==> (out matches McpReply::Reply(v) && json_view(v) == cancel_view(
            Some("input_cancelled_or_unavailable"@),
        )),
        outcome == Some(UserInputAction::Decline) ==> (out matches McpReply::Reply(v) && json_view(v)
            == action_view("decline"@)),
        outcome == Some(UserInputAction::Cancel) ==> (out matches McpReply::Reply(v) && json_view(v)
            == action_view("cancel"@)),
        outcome == Some(UserInputAction::Submit) ==> exists|numbers: Seq<Option<JsonView>>| {
            &&& numbers_from(parse_number, field_views(form.fields@), answers@, numbers)
            &&& match out {
                McpReply::Reply(v) => content_upto(field_views(form.fields@), answers@, numbers, form.fields@.len() as int)
                    matches Ok(m) && json_view(v) == accept_view(m),
                McpReply::InvalidRequest(e) => content_upto(
                    field_views(form.fields@),
                    answers@,
                    numbers,
                    form.fields@.len() as int,
                ) == Err::<Seq<(Seq<char>, JsonView)>, Seq<char>>(e@),
                McpReply::MethodNotFound => false,
            }
        },
{
    match outcome {
        None => McpReply::Reply(cancel_reply(Some("input_cancelled_or_unavailable"))),
        Some(UserInputAction::Decline) => McpReply::Reply(object1("action", text_value("decline"))),
        Some(UserInputAction::Cancel) => McpReply::Reply(object1("action", text_value("cancel"))),
        Some(UserInputAction::Submit) => match answers_to_content(form, answers, parse_number) {
            Ok(content) => {
                let ghost c = json_view(content);
                McpReply::Reply(object2("action", text_value("accept"), "content", content))
            },
            Err(message) => McpReply::InvalidRequest(message),
        },
    }
}

} // verus!
