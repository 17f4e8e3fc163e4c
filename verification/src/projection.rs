//! What a Run's tool activity leaves behind: the persisted form of tool results and arguments,
//! the steps of a proposed plan, and the evidence artifacts of commands and diffs.

use vstd::prelude::*;

use crate::json::{as_bool, as_str, as_u64, clone_json, field, get, get_bool, get_str, get_u64, json_view, members_view, JsonValue, JsonView};
use crate::text::{chars_of, decimal, decimal_string, str_eq, string_from_chars, take_chars, trim, trimmed};
use crate::tools::status_text;
use crate::file_diff::text_lines;
use crate::tools::{ToolCall, ToolResult};

verus! {

/// Number of bytes of the UTF-8 encoding of a text, as `str::len` gives it.
pub open spec fn byte_count(text: Seq<char>) -> usize {
    vstd::utf8::encode_utf8(text).len() as usize
}

fn text_bytes(text: &str) -> (n: usize)
    ensures
        n == byte_count(text@),
{
    text.len()
}

/// A JSON number holding `n`.
pub open spec fn count_view(n: nat) -> JsonView {
    JsonView::Number(decimal(n))
}

fn count_value(n: u64) -> (v: JsonValue)
    ensures
        json_view(v) == count_view(n as nat),
{
    JsonValue::Number(decimal_string(n))
}

/// A member that may be absent, as serde_json serializes an `Option`: absent is `null`.
pub open spec fn or_null(v: Option<JsonValue>) -> JsonView {
    match v {
        Some(j) => json_view(j),
        None => JsonView::Null,
    }
}

fn member_or_null(value: &JsonValue, key: &str) -> (out: JsonValue)
    ensures
        json_view(out) == or_null(field(*value, key@)),
{
    match get(value, key) {
        Some(v) => clone_json(v),
        None => JsonValue::Null,
    }
}

fn object_of(members: Vec<(String, JsonValue)>) -> (out: JsonValue)
    ensures
        json_view(out) == JsonView::Object(members_view(members@)),
{
    JsonValue::Object(members)
}

proof fn lemma_members(ms: Seq<(String, JsonValue)>)
    ensures
        members_view(ms) =~= Seq::new(ms.len(), |i: int| (ms[i].0@, json_view(ms[i].1))),
{
    crate::budget::lemma_members_view(ms);
}

// ---------------------------------------------------------------------------------------------
// Tool results
// ---------------------------------------------------------------------------------------------

/// Structured content that asks to be kept out of persistence.
pub open spec fn redacts(content: JsonValue) -> bool {
    as_bool(field(content, "redactForPersistence"@)) == Some(true)
}

pub open spec fn redacted_notice() -> Seq<char> {
    "[user input delivered to the active executor; answers were not persisted]"@
}

/// What is persisted of redacted content: the request it answered, how many answers were
/// given, and the fact of redaction; nothing of the answers themselves.
pub open spec fn redacted_record(content: JsonValue) -> JsonView {
    JsonView::Object(redacted_members(content))
}

pub open spec fn redacted_members(content: JsonValue) -> Seq<(Seq<char>, JsonView)> {
        seq![
            ("answerCount"@, count_view(
                match as_u64(field(content, "answerCount"@)) {
                    Some(n) => n as nat,
                    None => 0,
                },
            )),
            ("redacted"@, JsonView::Bool(true)),
            ("requestId"@, or_null(field(content, "requestId"@))),
        ]
}

/// The model content and structured content persisted for a tool result: a redacted result
/// keeps only a notice and `redacted_record`; any other is kept as it is.
pub fn persisted_tool_result(result: &ToolResult) -> (out: (String, JsonValue))
    ensures
        redacts(result.structured_content) ==> out.0@ == redacted_notice() && json_view(out.1) == redacted_record(
            result.structured_content,
        ),
        !redacts(result.structured_content) ==> out.0@ == result.model_content@ && json_view(out.1) == json_view(
            result.structured_content,
        ),
{
    let redact = match get_bool(&result.structured_content, "redactForPersistence") {
        Some(b) => b,
        None => false,
    };
    if redact {
        let count = match get_u64(&result.structured_content, "answerCount") {
            Some(n) => n,
            None => 0,
        };
        let members = vec![
            ("answerCount".to_owned(), count_value(count)),
            ("redacted".to_owned(), JsonValue::Bool(true)),
            ("requestId".to_owned(), member_or_null(&result.structured_content, "requestId")),
        ];
        proof {
            lemma_members(members@);
        }
        assert(members_view(members@) =~= redacted_members(result.structured_content));
        let record = object_of(members);
        return (
            "[user input delivered to the active executor; answers were not persisted]".to_owned(),
            record,
        );
    }
    (result.model_content.clone(), clone_json(&result.structured_content))
}

// ---------------------------------------------------------------------------------------------
// Tool arguments
// ---------------------------------------------------------------------------------------------

/// The byte count of a string member, 0 when it is not a string.
pub open spec fn text_size(arguments: JsonValue, key: Seq<char>) -> JsonView {
    match as_str(field(arguments, key)) {
        Some(t) => count_view(byte_count(t) as nat),
        None => count_view(0),
    }
}

/// The SHA-256 digest of a string member in lowercase hex, `null` when it is not a string.
pub open spec fn text_digest(arguments: JsonValue, key: Seq<char>) -> JsonView {
    match as_str(field(arguments, key)) {
        Some(t) => JsonView::Str(crate::digest::hex_lower(crate::digest::sha256_text(t))),
        None => JsonView::Null,
    }
}

/// The number of items of an array member, 0 when it is not an array.
pub open spec fn item_count(arguments: JsonValue, key: Seq<char>) -> nat {
    match field(arguments, key) {
        Some(JsonValue::Array(items)) => items@.len(),
        _ => 0,
    }
}

/// The arguments of a tool call as the transcript keeps them: file contents and replaced
/// texts only by size and digest, a command by its program, directory, timeout and number of
/// arguments; other calls as they are.
pub open spec fn transcript_arguments(name: Seq<char>, arguments: JsonValue) -> JsonView {
    if name == "workspace_write_file"@ {
        JsonView::Object(write_members(arguments))
    } else if name == "workspace_replace_text"@ {
        JsonView::Object(replace_members(arguments))
    } else if name == "workspace_exec"@ {
        JsonView::Object(exec_members(arguments))
    } else {
        json_view(arguments)
    }
}

pub open spec fn write_members(arguments: JsonValue) -> Seq<(Seq<char>, JsonView)> {
    seq![
        ("contentBytes"@, text_size(arguments, "content"@)),
        ("contentSha256"@, text_digest(arguments, "content"@)),
        ("expectedSha256"@, or_null(field(arguments, "expectedSha256"@))),
        ("path"@, or_null(field(arguments, "path"@))),
    ]
}

pub open spec fn replace_members(arguments: JsonValue) -> Seq<(Seq<char>, JsonView)> {
    seq![
        ("expectedSha256"@, or_null(field(arguments, "expectedSha256"@))),
        ("newTextBytes"@, text_size(arguments, "newText"@)),
        ("newTextSha256"@, text_digest(arguments, "newText"@)),
        ("oldTextBytes"@, text_size(arguments, "oldText"@)),
        ("oldTextSha256"@, text_digest(arguments, "oldText"@)),
        ("path"@, or_null(field(arguments, "path"@))),
        ("replaceAll"@, or_null(field(arguments, "replaceAll"@))),
    ]
}

pub open spec fn exec_members(arguments: JsonValue) -> Seq<(Seq<char>, JsonView)> {
    seq![
        ("argumentCount"@, count_view(item_count(arguments, "args"@))),
        ("cwd"@, or_null(field(arguments, "cwd"@))),
        ("program"@, or_null(field(arguments, "program"@))),
        ("timeoutMs"@, or_null(field(arguments, "timeoutMs"@))),
    ]
}

fn size_of_member(arguments: &JsonValue, key: &str) -> (out: JsonValue)
    ensures
        json_view(out) == text_size(*arguments, key@),
{
    match get_str(arguments, key) {
        Some(t) => {
            let n = text_bytes(t.as_str());
            count_value(n as u64)
        },
        None => count_value(0),
    }
}

fn digest_of_member(arguments: &JsonValue, key: &str) -> (out: JsonValue)
    ensures
        json_view(out) == text_digest(*arguments, key@),
{
    match get_str(arguments, key) {
        Some(t) => JsonValue::String(crate::digest::sha256_hex(t.as_str())),
        None => JsonValue::Null,
    }
}

fn count_of_items(arguments: &JsonValue, key: &str) -> (out: JsonValue)
    ensures
        json_view(out) == count_view(item_count(*arguments, key@)),
{
    match get(arguments, key) {
        Some(JsonValue::Array(items)) => count_value(items.len() as u64),
        _ => count_value(0),
    }
}

/// The arguments of a call as the transcript keeps them (see `transcript_arguments`).
pub fn transcript_tool_arguments(call: &ToolCall) -> (out: JsonValue)
    ensures
        json_view(out) == transcript_arguments(call.name@, call.arguments),
{
    proof {
        reveal_strlit("workspace_write_file");
        reveal_strlit("workspace_replace_text");
        reveal_strlit("workspace_exec");
    }
    let a = &call.arguments;
    if str_eq(call.name.as_str(), "workspace_write_file") {
        let members = vec![
            ("contentBytes".to_owned(), size_of_member(a, "content")),
            ("contentSha256".to_owned(), digest_of_member(a, "content")),
            ("expectedSha256".to_owned(), member_or_null(a, "expectedSha256")),
            ("path".to_owned(), member_or_null(a, "path")),
        ];
        proof {
            lemma_members(members@);
            assert(members_view(members@) =~= write_members(*a));
        }
        object_of(members)
    } else if str_eq(call.name.as_str(), "workspace_replace_text") {
        let members = vec![
            ("expectedSha256".to_owned(), member_or_null(a, "expectedSha256")),
            ("newTextBytes".to_owned(), size_of_member(a, "newText")),
            ("newTextSha256".to_owned(), digest_of_member(a, "newText")),
            ("oldTextBytes".to_owned(), size_of_member(a, "oldText")),
            ("oldTextSha256".to_owned(), digest_of_member(a, "oldText")),
            ("path".to_owned(), member_or_null(a, "path")),
            ("replaceAll".to_owned(), member_or_null(a, "replaceAll")),
        ];
        proof {
            lemma_members(members@);
            assert(members_view(members@) =~= replace_members(*a));
        }
        object_of(members)
    } else if str_eq(call.name.as_str(), "workspace_exec") {
        let members = vec![
            ("argumentCount".to_owned(), count_of_items(a, "args")),
            ("cwd".to_owned(), member_or_null(a, "cwd")),
            ("program".to_owned(), member_or_null(a, "program")),
            ("timeoutMs".to_owned(), member_or_null(a, "timeoutMs")),
        ];
        proof {
            lemma_members(members@);
            assert(members_view(members@) =~= exec_members(*a));
        }
        object_of(members)
    } else {
        clone_json(a)
    }
}

// ---------------------------------------------------------------------------------------------
// Plans
// ---------------------------------------------------------------------------------------------

/// Most steps taken from a proposed plan.
pub const MAX_PLAN_STEPS: usize = 128;

pub open spec fn is_bullet(c: char) -> bool {
    c == '-' || c == '*'
}

pub open spec fn is_numbering(c: char) -> bool {
    ('0' <= c && c <= '9') || c == '.' || c == ')' || c == ' '
}

/// `trim_start_matches(['-', '*'])`.
pub open spec fn strip_bullets(s: Seq<char>) -> Seq<char>
    decreases s.len(),
{
    if s.len() > 0 && is_bullet(s[0]) { strip_bullets(s.skip(1)) } else { s }
}

/// `trim_start_matches` of ASCII digits, `.`, `)` and spaces.
pub open spec fn strip_numbering(s: Seq<char>) -> Seq<char>
    decreases s.len(),
{
    if s.len() > 0 && is_numbering(s[0]) { strip_numbering(s.skip(1)) } else { s }
}

/// The step a plan line describes: not blank, not a heading, stripped of its bullet and
/// numbering, and cut to 2000 characters.
pub open spec fn step_text(line: Seq<char>) -> Option<Seq<char>> {
    let t = trim(line);
    if t.len() == 0 || t[0] == '#' {
        None
    } else {
        let d = trim(strip_numbering(strip_bullets(t)));
        if d.len() == 0 { None } else { Some(take_chars(d, 2000)) }
    }
}

/// The steps of the given lines, in order.
pub open spec fn steps_of(lines: Seq<Seq<char>>) -> Seq<Seq<char>>
    decreases lines.len(),
{
    if lines.len() == 0 {
        Seq::empty()
    } else {
        let before = steps_of(lines.drop_last());
        match step_text(lines.last()) {
            Some(d) => before.push(d),
            None => before,
        }
    }
}

fn strip_prefix_count(chars: &Vec<char>, numbering: bool) -> (k: usize)
    ensures
        k <= chars@.len(),
        numbering ==> strip_numbering(chars@) == chars@.skip(k as int),
        !numbering ==> strip_bullets(chars@) == chars@.skip(k as int),
{
    let mut i: usize = 0;
    assert(chars@.skip(0) =~= chars@);
    while i < chars.len()
        invariant
            i <= chars@.len(),
            numbering ==> strip_numbering(chars@) == strip_numbering(chars@.skip(i as int)),
            !numbering ==> strip_bullets(chars@) == strip_bullets(chars@.skip(i as int)),
        decreases chars@.len() - i,
    {
        let c = chars[i];
        let matched = if numbering {
            ('0' <= c && c <= '9') || c == '.' || c == ')' || c == ' '
        } else {
            c == '-' || c == '*'
        };
        if !matched {
            assert(chars@.skip(i as int)[0] == c);
            return i;
        }
        assert(chars@.skip(i as int).skip(1) =~= chars@.skip(i + 1));
        i = i + 1;
    }
    i
}

fn step_of_line(line: &Vec<char>) -> (out: Option<String>)
    ensures
        match out {
            Some(d) => step_text(line@) == Some(d@),
            None => step_text(line@) is None,
        },
{
    let text = string_from_chars(line);
    let t = chars_of(trimmed(text.as_str()).as_str());
    if t.len() == 0 || t[0] == '#' {
        return None;
    }
    let k1 = strip_prefix_count(&t, false);
    let mut rest: Vec<char> = Vec::new();
    let mut j: usize = k1;
    while j < t.len()
        invariant
            k1 <= j <= t@.len(),
            rest@ == t@.subrange(k1 as int, j as int),
        decreases t@.len() - j,
    {
        rest.push(t[j]);
        assert(rest@ =~= t@.subrange(k1 as int, j + 1));
        j = j + 1;
    }
    assert(rest@ =~= t@.skip(k1 as int));
    let k2 = strip_prefix_count(&rest, true);
    let mut tail = String::new();
    crate::text::push_chars(&mut tail, &rest, k2, rest.len());
    assert(tail@ =~= rest@.skip(k2 as int));
    let d = trimmed(tail.as_str());
    if d.unicode_len() == 0 {
        return None;
    }
    Some(crate::text::bounded(d.as_str(), 2000))
}

/// The steps of a proposed plan: one per line that describes one (see `step_text`), at most
/// `MAX_PLAN_STEPS`.
pub fn plan_steps(markdown: &str) -> (out: Vec<String>)
    ensures
        out@.map_values(|s: String| s@) == steps_of(text_lines(markdown@)).take(
            min_usize(steps_of(text_lines(markdown@)).len(), MAX_PLAN_STEPS as nat) as int,
        ),
{
    let lines = crate::file_diff::lines_of(markdown);
    let ghost ls = crate::agents::views(lines@);
    assert(ls.len() == lines@.len());
    let mut out: Vec<String> = Vec::new();
    let mut i: usize = 0;
    while i < lines.len() && out.len() < MAX_PLAN_STEPS
        invariant
            ls == crate::agents::views(lines@),
            ls.len() == lines@.len(),
            i <= lines@.len(),
            out@.len() <= MAX_PLAN_STEPS,
            out@.map_values(|s: String| s@) == steps_of(ls.take(i as int)),
        decreases lines@.len() - i,
    {
        proof {
            assert(ls.take(i + 1).drop_last() =~= ls.take(i as int));
            assert(ls[i as int] == lines@[i as int]@);
        }
        let ghost before = out@;
        match step_of_line(&lines[i]) {
            Some(d) => {
                out.push(d);
                assert(out@.map_values(|s: String| s@) =~= before.map_values(|s: String| s@).push(d@));
            },
            None => {},
        }
        i = i + 1;
    }
    proof {
        assert(ls == text_lines(markdown@));
        assert(ls.take(ls.len() as int) =~= ls);
        lemma_steps_grow(ls, i as int);
        let total = steps_of(ls);
        let got = out@.map_values(|s: String| s@);
        if i < lines@.len() {
            lemma_steps_prefix(ls, i as int, ls.len() as int);
            assert(got.len() == MAX_PLAN_STEPS);
            assert(total.take(MAX_PLAN_STEPS as int) == got);
        } else {
            assert(ls.take(i as int) =~= ls);
            assert(got == total);
            assert(total.take(total.len() as int) =~= total);
        }
    }
    out
}

pub open spec fn min_usize(a: nat, b: nat) -> nat {
    if a <= b { a } else { b }
}

proof fn lemma_steps_grow(ls: Seq<Seq<char>>, i: int)
    requires
        0 <= i <= ls.len(),
    ensures
        steps_of(ls.take(i)).len() <= steps_of(ls).len(),
    decreases ls.len() - i,
{
    if i < ls.len() {
        lemma_steps_prefix(ls, i, i + 1);
        lemma_steps_grow(ls, i + 1);
    } else {
        assert(ls.take(i) =~= ls);
    }
}

/// The steps of a longer prefix begin with those of a shorter one.
proof fn lemma_steps_prefix(ls: Seq<Seq<char>>, i: int, j: int)
    requires
        0 <= i <= j <= ls.len(),
    ensures
        steps_of(ls.take(i)).len() <= steps_of(ls.take(j)).len(),
        steps_of(ls.take(j)).take(steps_of(ls.take(i)).len() as int) == steps_of(ls.take(i)),
    decreases j - i,
{
    if i < j {
        lemma_steps_prefix(ls, i, j - 1);
        assert(ls.take(j).drop_last() =~= ls.take(j - 1));
        let a = steps_of(ls.take(i));
        let b = steps_of(ls.take(j - 1));
        let c = steps_of(ls.take(j));
        assert(c.take(a.len() as int) =~= b.take(a.len() as int));
    } else {
        assert(steps_of(ls.take(j)).take(steps_of(ls.take(i)).len() as int) =~= steps_of(ls.take(i)));
    }
}

/// The progress of a plan step.
#[derive(PartialEq, Eq, Structural, Clone, Copy, Debug)]
pub enum PlanStepStatus {
    Pending,
    InProgress,
    Completed,
}

/// Number of steps in progress.
pub open spec fn in_progress_count(steps: Seq<(String, PlanStepStatus)>) -> nat
    decreases steps.len(),
{
    if steps.len() == 0 {
        0
    } else {
        in_progress_count(steps.drop_last()) + if steps.last().1 == PlanStepStatus::InProgress { 1nat } else { 0nat }
    }
}

/// A plan update is accepted when it has steps and at most one of them is in progress; the
/// accepted steps keep their order and status, their descriptions trimmed.
pub fn validate_plan_update(plan: &Vec<(String, PlanStepStatus)>) -> (out: Result<Vec<(String, PlanStepStatus)>, crate::tools::ToolExecutionError>)
    ensures
        out is Ok <==> plan@.len() > 0 && in_progress_count(plan@) <= 1,
        out matches Err(e) ==> crate::delegation::failure_text(e) == "plan must contain steps and at most one in-progress step"@,
        out matches Ok(steps) ==> steps@.len() == plan@.len() && forall|k: int|
            0 <= k < plan@.len() ==> (#[trigger] steps@[k]).0@ == trim(plan@[k].0@) && steps@[k].1 == plan@[k].1,
{
    let mut in_progress: usize = 0;
    let mut i: usize = 0;
    while i < plan.len()
        invariant
            i <= plan@.len(),
            in_progress == in_progress_count(plan@.take(i as int)),
            in_progress <= i,
        decreases plan@.len() - i,
    {
        proof {
            assert(plan@.take(i + 1).drop_last() =~= plan@.take(i as int));
        }
        if plan[i].1 == PlanStepStatus::InProgress {
            in_progress = in_progress + 1;
        }
        i = i + 1;
    }
    assert(plan@.take(i as int) =~= plan@);
    if plan.len() == 0 || in_progress > 1 {
        return Err(crate::delegation::failed("plan must contain steps and at most one in-progress step"));
    }
    let mut steps: Vec<(String, PlanStepStatus)> = Vec::new();
    let mut j: usize = 0;
    while j < plan.len()
        invariant
            j <= plan@.len(),
            steps@.len() == j,
            forall|k: int| 0 <= k < j ==> (#[trigger] steps@[k]).0@ == trim(plan@[k].0@) && steps@[k].1 == plan@[k].1,
        decreases plan@.len() - j,
    {
        steps.push((trimmed(plan[j].0.as_str()), plan[j].1));
        j = j + 1;
    }
    Ok(steps)
}

/// The model content of an accepted plan update.
pub fn plan_update_message(steps: usize) -> (out: String)
    ensures
        out@ == "Updated plan with "@ + decimal(steps as nat) + " steps."@,
{
    let mut out = "Updated plan with ".to_owned();
    crate::text::push_decimal(&mut out, steps as u64);
    crate::text::push_str(&mut out, " steps.");
    out
}

// ---------------------------------------------------------------------------------------------
// Evidence artifacts
// ---------------------------------------------------------------------------------------------

/// What an evidence artifact records.
#[derive(PartialEq, Eq, Structural, Clone, Copy, Debug)]
pub enum EvidenceKind {
    DiffEvidence,
    CommandEvidence,
}

/// An evidence artifact of a tool result; its id, Run and time are the caller's.
#[derive(Debug)]
pub struct EvidenceArtifact {
    /// The Run the evidence belongs to.
    pub run_id: String,
    pub kind: EvidenceKind,
    pub display_name: String,
    pub content_hash: String,
    pub metadata: JsonValue,
}

/// `exitCode`, or else `exit_code`.
pub open spec fn exit_code(content: JsonValue) -> Option<JsonValue> {
    match field(content, "exitCode"@) {
        Some(v) => Some(v),
        None => field(content, "exit_code"@),
    }
}

pub open spec fn truncated_flag(content: JsonValue) -> JsonView {
    JsonView::Bool(as_bool(field(content, "truncated"@)) == Some(true))
}

/// The text of a diff result: its structured `stdout`, or else its model content.
pub open spec fn diff_text(result: ToolResult) -> Seq<char> {
    match as_str(field(result.structured_content, "stdout"@)) {
        Some(t) => t,
        None => result.model_content@,
    }
}

pub open spec fn str_or_empty(content: JsonValue, key: Seq<char>) -> Seq<char> {
    match as_str(field(content, key)) {
        Some(t) => t,
        None => Seq::empty(),
    }
}

/// The program a command call ran, or `command`.
pub open spec fn program_of(call: Option<ToolCall>) -> Seq<char> {
    match call {
        Some(c) => match as_str(field(c.arguments, "program"@)) {
            Some(p) => p,
            None => "command"@,
        },
        None => "command"@,
    }
}

pub open spec fn diff_metadata(result: ToolResult) -> Seq<(Seq<char>, JsonView)> {
    let d = diff_text(result);
    seq![
        ("byteSize"@, count_view(byte_count(d) as nat)),
        ("exitCode"@, or_null(exit_code(result.structured_content))),
        ("lineCount"@, count_view(text_lines(d).len())),
        ("status"@, JsonView::Str(status_text(result.status))),
        ("toolCallId"@, JsonView::Str(result.call_id@)),
        ("truncated"@, truncated_flag(result.structured_content)),
    ]
}

pub open spec fn command_metadata(result: ToolResult, call: Option<ToolCall>) -> Seq<(Seq<char>, JsonView)> {
    let content = result.structured_content;
    seq![
        ("argumentCount"@, count_view(
            match call {
                Some(c) => item_count(c.arguments, "args"@),
                None => 0,
            },
        )),
        ("cwd"@, match call {
            Some(c) => or_null(field(c.arguments, "cwd"@)),
            None => JsonView::Null,
        }),
        ("exitCode"@, or_null(exit_code(content))),
        ("program"@, JsonView::Str(program_of(call))),
        ("status"@, JsonView::Str(status_text(result.status))),
        ("stderrBytes"@, count_view(byte_count(str_or_empty(content, "stderr"@)) as nat)),
        ("stdoutBytes"@, count_view(byte_count(str_or_empty(content, "stdout"@)) as nat)),
        ("toolCallId"@, JsonView::Str(result.call_id@)),
        ("truncated"@, truncated_flag(content)),
    ]
}

fn exit_code_value(content: &JsonValue) -> (out: JsonValue)
    ensures
        json_view(out) == or_null(exit_code(*content)),
{
    match get(content, "exitCode") {
        Some(v) => clone_json(v),
        None => member_or_null(content, "exit_code"),
    }
}

fn truncated_value(content: &JsonValue) -> (out: JsonValue)
    ensures
        json_view(out) == truncated_flag(*content),
{
    JsonValue::Bool(
        match get_bool(content, "truncated") {
            Some(b) => b,
            None => false,
        },
    )
}

fn text_or_empty<'a>(content: &'a JsonValue, key: &str) -> (out: &'a str)
    ensures
        out@ == str_or_empty(*content, key@),
{
    proof {
        reveal_strlit("");
    }
    match get_str(content, key) {
        Some(t) => t.as_str(),
        None => "",
    }
}

/// The evidence a diff or command result leaves: a diff by the digest, size and line count of
/// its text; a command by the digest of its structured content and the sizes of its output;
/// other results leave none.
pub fn evidence_artifact(run_id: &str, result: &ToolResult, call: Option<&ToolCall>) -> (out: Option<EvidenceArtifact>)
    ensures
        out matches Some(a) ==> a.run_id@ == run_id@,
        result.tool_name@ == "workspace_git_diff"@ ==> (out matches Some(a) && a.kind == EvidenceKind::DiffEvidence
            && a.display_name@ == "Workspace diff"@ && a.content_hash@ == crate::digest::hex_lower(
            crate::digest::sha256_text(diff_text(*result)),
        ) && json_view(a.metadata) == JsonView::Object(diff_metadata(*result))),
        result.tool_name@ == "workspace_exec"@ ==> (out matches Some(a) && a.kind == EvidenceKind::CommandEvidence
            && a.display_name@ == take_chars(
            program_of(
                match call {
                    Some(c) => Some(*c),
                    None => None,
                },
            ),
            160,
        ) && a.content_hash@ == crate::digest::hex_lower(
            crate::digest::sha256_text(crate::json::json_print(json_view(result.structured_content))),
        ) && json_view(a.metadata) == JsonView::Object(
            command_metadata(
                *result,
                match call {
                    Some(c) => Some(*c),
                    None => None,
                },
            ),
        )),
        result.tool_name@ != "workspace_git_diff"@ && result.tool_name@ != "workspace_exec"@ ==> out is None,
{
    proof {
        reveal_strlit("workspace_git_diff");
        reveal_strlit("workspace_exec");
        reveal_strlit("command");
        reveal_strlit("");
        assert("workspace_git_diff"@.len() != "workspace_exec"@.len());
    }
    let content = &result.structured_content;
    if str_eq(result.tool_name.as_str(), "workspace_git_diff") {
        let diff: &str = match get_str(content, "stdout") {
            Some(t) => t.as_str(),
            None => result.model_content.as_str(),
        };
        let bytes = text_bytes(diff);
        let lines = crate::file_diff::line_count(diff);
        let members = vec![
            ("byteSize".to_owned(), count_value(bytes as u64)),
            ("exitCode".to_owned(), exit_code_value(content)),
            ("lineCount".to_owned(), count_value(lines as u64)),
            ("status".to_owned(), JsonValue::String(crate::tools::tool_status(result.status).to_owned())),
            ("toolCallId".to_owned(), JsonValue::String(result.call_id.clone())),
            ("truncated".to_owned(), truncated_value(content)),
        ];
        proof {
            lemma_members(members@);
            assert(members_view(members@) =~= diff_metadata(*result));
        }
        return Some(
            EvidenceArtifact {
                run_id: run_id.to_owned(),
                kind: EvidenceKind::DiffEvidence,
                display_name: "Workspace diff".to_owned(),
                content_hash: crate::digest::sha256_hex(diff),
                metadata: object_of(members),
            },
        );
    }
    if str_eq(result.tool_name.as_str(), "workspace_exec") {
        let ghost c = match call {
            Some(c) => Some(*c),
            None => None,
        };
        let program: &str = match call {
            Some(c) => match get_str(&c.arguments, "program") {
                Some(p) => p.as_str(),
                None => "command",
            },
            None => "command",
        };
        let argument_count = match call {
            Some(c) => count_of_items(&c.arguments, "args"),
            None => count_value(0),
        };
        let cwd = match call {
            Some(c) => member_or_null(&c.arguments, "cwd"),
            None => JsonValue::Null,
        };
        let stdout = text_or_empty(content, "stdout");
        let stderr = text_or_empty(content, "stderr");
        let stdout_bytes = text_bytes(stdout);
        let stderr_bytes = text_bytes(stderr);
        let members = vec![
            ("argumentCount".to_owned(), argument_count),
            ("cwd".to_owned(), cwd),
            ("exitCode".to_owned(), exit_code_value(content)),
            ("program".to_owned(), JsonValue::String(program.to_owned())),
            ("status".to_owned(), JsonValue::String(crate::tools::tool_status(result.status).to_owned())),
            ("stderrBytes".to_owned(), count_value(stderr_bytes as u64)),
            ("stdoutBytes".to_owned(), count_value(stdout_bytes as u64)),
            ("toolCallId".to_owned(), JsonValue::String(result.call_id.clone())),
            ("truncated".to_owned(), truncated_value(content)),
        ];
        proof {
            lemma_members(members@);
            assert(members_view(members@) =~= command_metadata(*result, c));
        }
        let printed = crate::json::print_json(content);
        return Some(
            EvidenceArtifact {
                run_id: run_id.to_owned(),
                kind: EvidenceKind::CommandEvidence,
                display_name: crate::text::bounded(program, 160),
                content_hash: crate::digest::sha256_hex(printed.as_str()),
                metadata: object_of(members),
            },
        );
    }
    None
}

// ---------------------------------------------------------------------------------------------
// Worlds
// ---------------------------------------------------------------------------------------------

/// The world of a Run whose runtime snapshot is not available: nothing loaded, the host
/// context as supplied (or `not_supplied`), and a sandbox that enforces nothing.
pub fn unavailable_world_state(host_context: Option<&str>) -> (w: crate::step::StepWorldState)
    ensures
        w.context_revision == 1 && w.profile_revision == 1,
        w.agents_revision@ == "not_loaded"@ && w.skills_revision@ == "not_loaded"@ && w.mcp_revision@ == "not_loaded"@,
        w.host_revision@ == match host_context {
            Some(h) => h@,
            None => "not_supplied"@,
        },
        w.instructions@.len() == 0 && w.skill_activations@.len() == 0 && w.mcp_bindings@.len() == 0,
        w.disabled_tool_names@.len() == 0 && w.diagnostics@.len() == 0,
        w.sandbox.backend@ == "runtime_snapshot_unavailable"@,
        w.sandbox.readiness == crate::step::SandboxReadiness::Unavailable,
        !w.sandbox.os_enforced && !w.sandbox.filesystem_enforced && !w.sandbox.process_enforced
            && !w.sandbox.network_enforced,
        w.sandbox.version is None,
        crate::step::opt_text(w.sandbox.stable_error_code) == Some("runtime_snapshot_unavailable"@),
        w.sandbox.diagnostics@.len() == 0,
        w.host_ready,
{
    crate::step::StepWorldState {
        context_revision: 1,
        profile_revision: 1,
        agents_revision: "not_loaded".to_owned(),
        skills_revision: "not_loaded".to_owned(),
        mcp_revision: "not_loaded".to_owned(),
        host_revision: match host_context {
            Some(h) => h.to_owned(),
            None => "not_supplied".to_owned(),
        },
        instructions: Vec::new(),
        skill_activations: Vec::new(),
        mcp_bindings: Vec::new(),
        disabled_tool_names: Vec::new(),
        diagnostics: Vec::new(),
        sandbox: crate::step::SandboxCapabilityReport {
            backend: "runtime_snapshot_unavailable".to_owned(),
            readiness: crate::step::SandboxReadiness::Unavailable,
            os_enforced: false,
            filesystem_enforced: false,
            process_enforced: false,
            network_enforced: false,
            version: None,
            stable_error_code: Some("runtime_snapshot_unavailable".to_owned()),
            diagnostics: Vec::new(),
        },
        host_ready: true,
    }
}

} // verus!
