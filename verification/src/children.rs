//! The child Agent Task tools a parent Run is offered (spawn, send, wait, cancel, collect):
//! their descriptors and the decisions they make between store reads and writes.

use vstd::prelude::*;

use crate::delegation::{failed, failure_text};
use crate::tools::ToolExecutionError;
use crate::json::{as_u64, field, get_u64, items_view, json_view, members_view, JsonValue, JsonView};
use crate::security::{ToolDescriptor, ToolEffect};
use crate::skills::joined_lines;
use crate::step::strs;
use crate::text::{push_str, str_eq};

verus! {

pub const AGENT_SPAWN_TOOL: &'static str = "agent.spawn";

pub const AGENT_SEND_TOOL: &'static str = "agent.send";

pub const AGENT_WAIT_TOOL: &'static str = "agent.wait";

pub const AGENT_CANCEL_TOOL: &'static str = "agent.cancel";

pub const AGENT_COLLECT_TOOL: &'static str = "agent.collect";

/// Which child-task tool.
#[derive(PartialEq, Eq, Structural, Clone, Copy, Debug)]
pub enum AgentToolKind {
    Spawn,
    Send,
    Wait,
    Cancel,
    Collect,
}

/// How a tool call is treated when a Run is recovered after it was dispatched.
#[derive(PartialEq, Eq, Structural, Clone, Copy, Debug)]
pub enum ToolRecoveryPolicy {
    ReadOnlyReplayable,
    IdempotentWithReceipt,
}

/// Waiting and collecting only read, so they may be replayed; the others carry a receipt.
pub fn recovery_policy(kind: AgentToolKind) -> (out: ToolRecoveryPolicy)
    ensures
        out == (if kind == AgentToolKind::Wait || kind == AgentToolKind::Collect {
            ToolRecoveryPolicy::ReadOnlyReplayable
        } else {
            ToolRecoveryPolicy::IdempotentWithReceipt
        }),
{
    match kind {
        AgentToolKind::Wait | AgentToolKind::Collect => ToolRecoveryPolicy::ReadOnlyReplayable,
        AgentToolKind::Spawn | AgentToolKind::Send | AgentToolKind::Cancel => ToolRecoveryPolicy::IdempotentWithReceipt,
    }
}

pub open spec fn str_schema(min: Seq<char>, max: Option<Seq<char>>) -> JsonView {
    match max {
        Some(m) => JsonView::Object(
            seq![
                ("type"@, JsonView::Str("string"@)),
                ("minLength"@, JsonView::Number(min)),
                ("maxLength"@, JsonView::Number(m)),
            ],
        ),
        None => JsonView::Object(seq![("type"@, JsonView::Str("string"@)), ("minLength"@, JsonView::Number(min))]),
    }
}

/// The arguments naming one child task, with bounded `content` when `with_content`.
pub open spec fn task_schema_view(with_content: bool) -> JsonView {
    let task_id = ("taskId"@, str_schema("1"@, None));
    let content = ("content"@, str_schema("1"@, Some("32000"@)));
    JsonView::Object(
        seq![
            ("type"@, JsonView::Str("object"@)),
            (
                "properties"@,
                JsonView::Object(if with_content { seq![task_id, content] } else { seq![task_id] }),
            ),
            (
                "required"@,
                JsonView::Array(
                    if with_content {
                        seq![JsonView::Str("taskId"@), JsonView::Str("content"@)]
                    } else {
                        seq![JsonView::Str("taskId"@)]
                    },
                ),
            ),
            ("additionalProperties"@, JsonView::Bool(false)),
        ],
    )
}

fn text_value(text: &str) -> (out: JsonValue)
    ensures
        json_view(out) == JsonView::Str(text@),
{
    JsonValue::String(text.to_owned())
}

fn object_of(members: Vec<(String, JsonValue)>) -> (out: JsonValue)
    ensures
        json_view(out) == JsonView::Object(
            members@.map_values(|m: (String, JsonValue)| (m.0@, json_view(m.1))),
        ),
{
    let ghost ms = members@;
    proof {
        crate::budget::lemma_members_view(ms);
        assert(members_view(ms) =~= ms.map_values(|m: (String, JsonValue)| (m.0@, json_view(m.1))));
    }
    JsonValue::Object(members)
}

fn array_of(items: Vec<JsonValue>) -> (out: JsonValue)
    ensures
        json_view(out) == JsonView::Array(items@.map_values(|v: JsonValue| json_view(v))),
{
    let ghost is = items@;
    proof {
        crate::budget::lemma_items_view(is);
        assert(items_view(is) =~= is.map_values(|v: JsonValue| json_view(v)));
    }
    JsonValue::Array(items)
}

fn string_schema(min: &str, max: Option<&str>) -> (out: JsonValue)
    ensures
        json_view(out) == str_schema(
            min@,
            match max {
                Some(m) => Some(m@),
                None => None,
            },
        ),
{
    let mut members = vec![
        ("type".to_owned(), text_value("string")),
        ("minLength".to_owned(), JsonValue::Number(min.to_owned())),
    ];
    if let Some(m) = max {
        members.push(("maxLength".to_owned(), JsonValue::Number(m.to_owned())));
    }
    let ghost ms = members@;
    let out = object_of(members);
    proof {
        let v = ms.map_values(|m: (String, JsonValue)| (m.0@, json_view(m.1)));
        match max {
            Some(m) => {
                assert(v =~= seq![
                    ("type"@, JsonView::Str("string"@)),
                    ("minLength"@, JsonView::Number(min@)),
                    ("maxLength"@, JsonView::Number(m@)),
                ]);
            },
            None => {
                assert(v =~= seq![("type"@, JsonView::Str("string"@)), ("minLength"@, JsonView::Number(min@))]);
            },
        }
    }
    out
}

/// The schema of the tools that name one child task.
pub fn task_schema(with_content: bool) -> (out: JsonValue)
    ensures
        json_view(out) == task_schema_view(with_content),
{
    let mut properties = vec![("taskId".to_owned(), string_schema("1", None))];
    let mut required = vec![text_value("taskId")];
    if with_content {
        properties.push(("content".to_owned(), string_schema("1", Some("32000"))));
        required.push(text_value("content"));
    }
    let ghost ps = properties@;
    let ghost rs = required@;
    let props = object_of(properties);
    let req = array_of(required);
    let ghost props_view = json_view(props);
    let ghost req_view = json_view(req);
    let members = vec![
        ("type".to_owned(), text_value("object")),
        ("properties".to_owned(), props),
        ("required".to_owned(), req),
        ("additionalProperties".to_owned(), JsonValue::Bool(false)),
    ];
    let ghost ms = members@;
    let out = object_of(members);
    proof {
        let task_id = ("taskId"@, str_schema("1"@, None));
        let content = ("content"@, str_schema("1"@, Some("32000"@)));
        let pv = ps.map_values(|m: (String, JsonValue)| (m.0@, json_view(m.1)));
        let rv = rs.map_values(|v: JsonValue| json_view(v));
        if with_content {
            assert(pv =~= seq![task_id, content]);
            assert(rv =~= seq![JsonView::Str("taskId"@), JsonView::Str("content"@)]);
        } else {
            assert(pv =~= seq![task_id]);
            assert(rv =~= seq![JsonView::Str("taskId"@)]);
        }
        assert(ms.map_values(|m: (String, JsonValue)| (m.0@, json_view(m.1))) =~= seq![
            ("type"@, JsonView::Str("object"@)),
            ("properties"@, props_view),
            ("required"@, req_view),
            ("additionalProperties"@, JsonView::Bool(false)),
        ]);
    }
    out
}

pub open spec fn string_list_schema() -> JsonView {
    JsonView::Object(
        seq![("type"@, JsonView::Str("array"@)), ("items"@, JsonView::Object(seq![("type"@, JsonView::Str("string"@))]))],
    )
}

pub open spec fn object_schema(properties: Seq<(Seq<char>, JsonView)>, required: Option<Seq<Seq<char>>>) -> JsonView {
    match required {
        Some(r) => JsonView::Object(
            seq![
                ("type"@, JsonView::Str("object"@)),
                ("properties"@, JsonView::Object(properties)),
                ("required"@, JsonView::Array(r.map_values(|n: Seq<char>| JsonView::Str(n)))),
                ("additionalProperties"@, JsonView::Bool(false)),
            ],
        ),
        None => JsonView::Object(
            seq![
                ("type"@, JsonView::Str("object"@)),
                ("properties"@, JsonView::Object(properties)),
                ("additionalProperties"@, JsonView::Bool(false)),
            ],
        ),
    }
}

/// A child's title, prompt, permission profile, budget, tool allowlist and Skills.
pub open spec fn spawn_schema() -> JsonView {
    object_schema(
        seq![
            ("title"@, str_schema("1"@, Some("200"@))),
            ("prompt"@, str_schema("1"@, Some("32000"@))),
            (
                "permissionProfile"@,
                JsonView::Object(
                    seq![
                        ("type"@, JsonView::Str("string"@)),
                        ("enum"@, JsonView::Array(seq![JsonView::Str("read_only"@), JsonView::Str("inherit"@)])),
                    ],
                ),
            ),
            (
                "maxModelRequests"@,
                JsonView::Object(seq![("type"@, JsonView::Str("integer"@)), ("minimum"@, JsonView::Number("1"@))]),
            ),
            (
                "maxToolCalls"@,
                JsonView::Object(seq![("type"@, JsonView::Str("integer"@)), ("minimum"@, JsonView::Number("1"@))]),
            ),
            ("toolAllowlist"@, string_list_schema()),
            ("skillIds"@, string_list_schema()),
        ],
        Some(seq!["title"@, "prompt"@]),
    )
}

/// The tasks to wait for and a timeout of at most a minute.
pub open spec fn wait_schema() -> JsonView {
    object_schema(
        seq![
            ("taskIds"@, string_list_schema()),
            (
                "timeoutMs"@,
                JsonView::Object(
                    seq![
                        ("type"@, JsonView::Str("integer"@)),
                        ("minimum"@, JsonView::Number("0"@)),
                        ("maximum"@, JsonView::Number("60000"@)),
                    ],
                ),
            ),
        ],
        None,
    )
}

pub open spec fn agent_tool_name(kind: AgentToolKind) -> Seq<char> {
    match kind {
        AgentToolKind::Spawn => "agent.spawn"@,
        AgentToolKind::Send => "agent.send"@,
        AgentToolKind::Wait => "agent.wait"@,
        AgentToolKind::Cancel => "agent.cancel"@,
        AgentToolKind::Collect => "agent.collect"@,
    }
}

pub open spec fn agent_tool_description(kind: AgentToolKind) -> Seq<char> {
    match kind {
        AgentToolKind::Spawn => "Spawn a bounded child Agent Task with narrower-or-equal permissions and reserved budget."@,
        AgentToolKind::Send => "Send bounded steering content to one active child Task."@,
        AgentToolKind::Wait => "Wait for selected child Tasks to finish or require attention."@,
        AgentToolKind::Cancel => "Cancel one child Task and all of its descendants."@,
        AgentToolKind::Collect => "Collect child status, bounded summaries, usage, artifacts, and messages."@,
    }
}

pub open spec fn agent_tool_schema(kind: AgentToolKind) -> JsonView {
    match kind {
        AgentToolKind::Spawn => spawn_schema(),
        AgentToolKind::Send => task_schema_view(true),
        AgentToolKind::Wait => wait_schema(),
        AgentToolKind::Cancel => task_schema_view(false),
        AgentToolKind::Collect => object_schema(Seq::empty(), None),
    }
}

fn member(key: &str, value: JsonValue) -> (out: (String, JsonValue))
    ensures
        out.0@ == key@,
        out.1 == value,
{
    (key.to_owned(), value)
}

fn string_list() -> (out: JsonValue)
    ensures
        json_view(out) == string_list_schema(),
{
    let inner = vec![member("type", text_value("string"))];
    let ghost is = inner@;
    let items = object_of(inner);
    assert(is.map_values(|m: (String, JsonValue)| (m.0@, json_view(m.1))) =~= seq![("type"@, JsonView::Str("string"@))]);
    let ghost iv = json_view(items);
    let members = vec![member("type", text_value("array")), member("items", items)];
    let ghost ms = members@;
    let out = object_of(members);
    assert(ms.map_values(|m: (String, JsonValue)| (m.0@, json_view(m.1))) =~= seq![
        ("type"@, JsonView::Str("array"@)),
        ("items"@, iv),
    ]);
    out
}

pub open spec fn value_views(s: Seq<JsonValue>) -> Seq<JsonView> {
    s.map_values(|v: JsonValue| json_view(v))
}

pub open spec fn name_views(s: Seq<&str>) -> Seq<JsonView> {
    s.map_values(|n: &str| JsonView::Str(n@))
}

fn names_array(names: Vec<&str>) -> (out: JsonValue)
    ensures
        json_view(out) == JsonView::Array(name_views(names@)),
{
    let mut items: Vec<JsonValue> = Vec::new();
    let mut i: usize = 0;
    while i < names.len()
        invariant
            i <= names@.len(),
            items@.len() == i,
            value_views(items@) == name_views(names@.take(i as int)),
        decreases names@.len() - i,
    {
        let ghost prev = items@;
        items.push(text_value(names[i]));
        proof {
            let want = name_views(names@.take(i + 1));
            let had = name_views(names@.take(i as int));
            assert forall|j: int| 0 <= j < i + 1 implies #[trigger] value_views(items@)[j] == want[j] by {
                if j < i {
                    assert(items@[j] == prev[j]);
                    assert(value_views(prev)[j] == had[j]);
                }
            }
            assert(value_views(items@) =~= want);
        }
        i = i + 1;
    }
    assert(names@.take(i as int) =~= names@);
    array_of(items)
}

fn integer_schema(minimum: &str, maximum: Option<&str>) -> (out: JsonValue)
    ensures
        json_view(out) == (match maximum {
            Some(m) => JsonView::Object(
                seq![
                    ("type"@, JsonView::Str("integer"@)),
                    ("minimum"@, JsonView::Number(minimum@)),
                    ("maximum"@, JsonView::Number(m@)),
                ],
            ),
            None => JsonView::Object(seq![("type"@, JsonView::Str("integer"@)), ("minimum"@, JsonView::Number(minimum@))]),
        }),
{
    let mut members = vec![member("type", text_value("integer")), member("minimum", JsonValue::Number(minimum.to_owned()))];
    if let Some(m) = maximum {
        members.push(member("maximum", JsonValue::Number(m.to_owned())));
    }
    let ghost ms = members@;
    let out = object_of(members);
    proof {
        let v = ms.map_values(|m: (String, JsonValue)| (m.0@, json_view(m.1)));
        match maximum {
            Some(m) => {
                assert(v =~= seq![
                    ("type"@, JsonView::Str("integer"@)),
                    ("minimum"@, JsonView::Number(minimum@)),
                    ("maximum"@, JsonView::Number(m@)),
                ]);
            },
            None => {
                assert(v =~= seq![("type"@, JsonView::Str("integer"@)), ("minimum"@, JsonView::Number(minimum@))]);
            },
        }
    }
    out
}

pub open spec fn opt_names(names: Option<Vec<&str>>) -> Option<Seq<Seq<char>>> {
    match names {
        Some(r) => Some(r@.map_values(|n: &str| n@)),
        None => None,
    }
}

fn object_schema_of(properties: Vec<(String, JsonValue)>, required: Option<Vec<&str>>) -> (out: JsonValue)
    ensures
        json_view(out) == object_schema(
            properties@.map_values(|m: (String, JsonValue)| (m.0@, json_view(m.1))),
            opt_names(required),
        ),
{
    let props = object_of(properties);
    let ghost pv = json_view(props);
    let mut members = vec![member("type", text_value("object")), member("properties", props)];
    let ghost req_names = opt_names(required);
    let ghost mut rv = JsonView::Null;
    if let Some(r) = required {
        let ghost rs = r@;
        let arr = names_array(r);
        proof {
            rv = json_view(arr);
            assert(name_views(rs) =~= rs.map_values(|n: &str| n@).map_values(
                |n: Seq<char>| JsonView::Str(n),
            ));
        }
        members.push(member("required", arr));
    }
    members.push(member("additionalProperties", JsonValue::Bool(false)));
    let ghost ms = members@;
    let out = object_of(members);
    proof {
        let v = ms.map_values(|m: (String, JsonValue)| (m.0@, json_view(m.1)));
        match req_names {
            Some(r) => {
                assert(v =~= seq![
                    ("type"@, JsonView::Str("object"@)),
                    ("properties"@, pv),
                    ("required"@, rv),
                    ("additionalProperties"@, JsonView::Bool(false)),
                ]);
            },
            None => {
                assert(v =~= seq![
                    ("type"@, JsonView::Str("object"@)),
                    ("properties"@, pv),
                    ("additionalProperties"@, JsonView::Bool(false)),
                ]);
            },
        }
    }
    out
}

fn agent_tool_schema_value(kind: AgentToolKind) -> (out: JsonValue)
    ensures
        json_view(out) == agent_tool_schema(kind),
{
    match kind {
        AgentToolKind::Spawn => {
            let choice_names = vec!["read_only", "inherit"];
            let ghost cn = choice_names@;
            let choices = names_array(choice_names);
            let ghost cv = json_view(choices);
            let profile_members = vec![member("type", text_value("string")), member("enum", choices)];
            let ghost pms = profile_members@;
            let profile = object_of(profile_members);
            proof {
                assert(name_views(cn) =~= seq![
                    JsonView::Str("read_only"@),
                    JsonView::Str("inherit"@),
                ]);
                assert(pms.map_values(|m: (String, JsonValue)| (m.0@, json_view(m.1))) =~= seq![
                    ("type"@, JsonView::Str("string"@)),
                    ("enum"@, cv),
                ]);
            }
            let properties = vec![
                member("title", string_schema("1", Some("200"))),
                member("prompt", string_schema("1", Some("32000"))),
                member("permissionProfile", profile),
                member("maxModelRequests", integer_schema("1", None)),
                member("maxToolCalls", integer_schema("1", None)),
                member("toolAllowlist", string_list()),
                member("skillIds", string_list()),
            ];
            let ghost ps = properties@;
            let required = vec!["title", "prompt"];
            let ghost rn = required@;
            let out = object_schema_of(properties, Some(required));
            proof {
                assert(rn.map_values(|n: &str| n@) =~= seq!["title"@, "prompt"@]);
                assert(ps.map_values(|m: (String, JsonValue)| (m.0@, json_view(m.1))) =~= spawn_schema()->Object_0[1].1->Object_0);
            }
            out
        },
        AgentToolKind::Send => task_schema(true),
        AgentToolKind::Wait => {
            let properties = vec![member("taskIds", string_list()), member("timeoutMs", integer_schema("0", Some("60000")))];
            let ghost ps = properties@;
            let out = object_schema_of(properties, None);
            assert(ps.map_values(|m: (String, JsonValue)| (m.0@, json_view(m.1))) =~= wait_schema()->Object_0[1].1->Object_0);
            out
        },
        AgentToolKind::Cancel => task_schema(false),
        AgentToolKind::Collect => {
            let properties: Vec<(String, JsonValue)> = Vec::new();
            let ghost ps = properties@;
            let out = object_schema_of(properties, None);
            assert(ps.map_values(|m: (String, JsonValue)| (m.0@, json_view(m.1))) =~= Seq::<(Seq<char>, JsonView)>::empty());
            out
        },
    }
}

/// The descriptor of a child-task tool: waiting and collecting only read and may run in
/// parallel; every one needs the `agent.run` scope.
pub fn agent_tool_descriptor(kind: AgentToolKind) -> (d: ToolDescriptor)
    ensures
        d.name@ == agent_tool_name(kind),
        d.description@ == agent_tool_description(kind),
        json_view(d.input_schema) == agent_tool_schema(kind),
        d.effect == (if kind == AgentToolKind::Wait || kind == AgentToolKind::Collect {
            ToolEffect::ReadOnly
        } else {
            ToolEffect::ExternalSideEffect
        }),
        d.parallel_safe == (kind == AgentToolKind::Wait || kind == AgentToolKind::Collect),
        d.required_scopes@.len() == 1 && d.required_scopes@[0]@ == "agent.run"@,
{
    let (name, description, effect): (&str, &str, ToolEffect) = match kind {
        AgentToolKind::Spawn => (
            AGENT_SPAWN_TOOL,
            "Spawn a bounded child Agent Task with narrower-or-equal permissions and reserved budget.",
            ToolEffect::ExternalSideEffect,
        ),
        AgentToolKind::Send => (AGENT_SEND_TOOL, "Send bounded steering content to one active child Task.", ToolEffect::ExternalSideEffect),
        AgentToolKind::Wait => (AGENT_WAIT_TOOL, "Wait for selected child Tasks to finish or require attention.", ToolEffect::ReadOnly),
        AgentToolKind::Cancel => (AGENT_CANCEL_TOOL, "Cancel one child Task and all of its descendants.", ToolEffect::ExternalSideEffect),
        AgentToolKind::Collect => (
            AGENT_COLLECT_TOOL,
            "Collect child status, bounded summaries, usage, artifacts, and messages.",
            ToolEffect::ReadOnly,
        ),
    };
    ToolDescriptor {
        name: name.to_owned(),
        description: description.to_owned(),
        input_schema: agent_tool_schema_value(kind),
        effect,
        parallel_safe: kind == AgentToolKind::Wait || kind == AgentToolKind::Collect,
        required_scopes: vec!["agent.run".to_owned()],
    }
}

/// Where a child Agent Task stands.
#[derive(PartialEq, Eq, Structural, Clone, Copy, Debug)]
pub enum AgentTaskStatus {
    Queued,
    Running,
    NeedsAttention,
    Succeeded,
    Failed,
    Cancelled,
}

/// Succeeded, failed and cancelled tasks are finished for good.
pub open spec fn task_is_terminal(status: AgentTaskStatus) -> bool {
    status == AgentTaskStatus::Succeeded || status == AgentTaskStatus::Failed || status == AgentTaskStatus::Cancelled
}

pub open spec fn task_status_name(status: AgentTaskStatus) -> Seq<char> {
    match status {
        AgentTaskStatus::Queued => "Queued"@,
        AgentTaskStatus::Running => "Running"@,
        AgentTaskStatus::NeedsAttention => "NeedsAttention"@,
        AgentTaskStatus::Succeeded => "Succeeded"@,
        AgentTaskStatus::Failed => "Failed"@,
        AgentTaskStatus::Cancelled => "Cancelled"@,
    }
}

impl AgentTaskStatus {
    pub fn is_terminal(&self) -> (b: bool)
        ensures
            b == task_is_terminal(*self),
    {
        *self == AgentTaskStatus::Succeeded || *self == AgentTaskStatus::Failed || *self == AgentTaskStatus::Cancelled
    }

    /// The status as it is named in summaries.
    pub fn name(&self) -> (out: &'static str)
        ensures
            out@ == task_status_name(*self),
    {
        match self {
            AgentTaskStatus::Queued => "Queued",
            AgentTaskStatus::Running => "Running",
            AgentTaskStatus::NeedsAttention => "NeedsAttention",
            AgentTaskStatus::Succeeded => "Succeeded",
            AgentTaskStatus::Failed => "Failed",
            AgentTaskStatus::Cancelled => "Cancelled",
        }
    }
}

/// What the child-task tools read of a task record.
#[derive(Debug)]
pub struct ChildTask {
    pub id: String,
    pub parent_run_id: String,
    pub status: AgentTaskStatus,
    pub result_summary: Option<String>,
}

/// The wait timeout: `timeoutMs` when it is a non-negative integer, else 30 seconds; at most
/// a minute.
pub open spec fn wait_timeout_of(arguments: JsonValue) -> u64 {
    match as_u64(field(arguments, "timeoutMs"@)) {
        Some(t) => if t < 60_000 { t } else { 60_000 },
        None => 30_000,
    }
}

pub fn wait_timeout_ms(arguments: &JsonValue) -> (out: u64)
    ensures
        out == wait_timeout_of(*arguments),
{
    let t = match get_u64(arguments, "timeoutMs") {
        Some(t) => t,
        None => 30_000,
    };
    if t < 60_000 { t } else { 60_000 }
}

pub open spec fn is_requested(requested: Seq<Seq<char>>, task: ChildTask) -> bool {
    requested.contains(task.id@)
}

fn contains_id(ids: &Vec<String>, id: &String) -> (b: bool)
    ensures
        b == strs(ids@).contains(id@),
{
    let mut i: usize = 0;
    while i < ids.len()
        invariant
            i <= ids@.len(),
            forall|k: int| 0 <= k < i ==> strs(ids@)[k] != id@,
        decreases ids@.len() - i,
    {
        if str_eq(ids[i].as_str(), id.as_str()) {
            assert(strs(ids@)[i as int] == id@);
            return true;
        }
        i = i + 1;
    }
    false
}

/// The tasks a wait watches: those named in `requested`, in their order; all of them when
/// the call names none.
pub fn select_requested(tasks: Vec<ChildTask>, requested: Option<&Vec<String>>) -> (out: Vec<ChildTask>)
    ensures
        out@ == match requested {
            None => tasks@,
            Some(r) => tasks@.filter(|t: ChildTask| is_requested(strs(r@), t)),
        },
{
    match requested {
        None => tasks,
        Some(ids) => {
            let ghost pred = |t: ChildTask| is_requested(strs(ids@), t);
            let ghost all = tasks@;
            let mut out: Vec<ChildTask> = Vec::new();
            let mut rest = tasks;
            let mut i: usize = 0;
            let n = rest.len();
            while i < n
                invariant
                    n == all.len(),
                    i <= n,
                    pred == (|t: ChildTask| is_requested(strs(ids@), t)),
                    rest@ == all.skip(i as int),
                    out@ == all.take(i as int).filter(pred),
                decreases n - i,
            {
                let t = rest.remove(0);
                assert(all.skip(i as int).remove(0) =~= all.skip(i + 1));
                proof {
                    assert(t == all[i as int]);
                    assert(all.take(i + 1) =~= all.take(i as int).push(t));
                    all.take(i as int).lemma_filter_push(t, pred);
                }
                if contains_id(ids, &t.id) {
                    out.push(t);
                }
                i = i + 1;
            }
            assert(all.take(n as int) =~= all);
            out
        },
    }
}

/// A task a wait no longer waits for: finished, or needing attention.
pub open spec fn settled(status: AgentTaskStatus) -> bool {
    task_is_terminal(status) || status == AgentTaskStatus::NeedsAttention
}

/// A wait ends when every watched task is settled or when its deadline passed.
pub fn wait_is_over(tasks: &Vec<ChildTask>, deadline_passed: bool) -> (b: bool)
    ensures
        b == (deadline_passed || forall|i: int| 0 <= i < tasks@.len() ==> settled(#[trigger] tasks@[i].status)),
{
    if deadline_passed {
        return true;
    }
    let mut i: usize = 0;
    while i < tasks.len()
        invariant
            !deadline_passed,
            i <= tasks@.len(),
            forall|k: int| 0 <= k < i ==> settled(#[trigger] tasks@[k].status),
        decreases tasks@.len() - i,
    {
        let status = tasks[i].status;
        if !(status.is_terminal() || status == AgentTaskStatus::NeedsAttention) {
            assert(!settled(tasks@[i as int].status));
            return false;
        }
        i = i + 1;
    }
    true
}

/// One line of a collection: the task, its status and its summary.
pub open spec fn summary_line(task: ChildTask) -> Seq<char> {
    task.id@ + ": "@ + task_status_name(task.status) + ": "@ + match task.result_summary {
        Some(s) => s@,
        None => "no summary"@,
    }
}

pub open spec fn summary_lines(tasks: Seq<ChildTask>) -> Seq<Seq<char>> {
    tasks.map_values(|t: ChildTask| summary_line(t))
}

/// The model-visible text of a collection: one line per task.
pub fn collect_summaries(tasks: &Vec<ChildTask>) -> (out: String)
    ensures
        out@ == joined_lines(summary_lines(tasks@)),
{
    let mut out = String::new();
    let mut i: usize = 0;
    while i < tasks.len()
        invariant
            i <= tasks@.len(),
            out@ == joined_lines(summary_lines(tasks@.take(i as int))),
        decreases tasks@.len() - i,
    {
        let ghost before = out@;
        if i > 0 {
            push_str(&mut out, "\n");
        }
        let task = &tasks[i];
        push_str(&mut out, task.id.as_str());
        push_str(&mut out, ": ");
        push_str(&mut out, task.status.name());
        push_str(&mut out, ": ");
        match &task.result_summary {
            Some(s) => push_str(&mut out, s.as_str()),
            None => push_str(&mut out, "no summary"),
        }
        proof {
            let lines = summary_lines(tasks@.take(i + 1));
            assert(summary_lines(tasks@.take(i as int)) =~= lines.drop_last());
            assert(lines.last() == summary_line(tasks@[i as int]));
            if i > 0 {
                reveal_strlit("\n");
                assert(out@ =~= before + seq!['\n'] + lines.last());
            } else {
                assert(out@ =~= lines.last());
            }
        }
        i = i + 1;
    }
    assert(tasks@.take(i as int) =~= tasks@);
    out
}

/// A child task may be named only by the Run that spawned it.
pub fn check_task_owner(task: &ChildTask, parent_run_id: &str) -> (out: Result<(), ToolExecutionError>)
    ensures
        out is Ok <==> task.parent_run_id@ == parent_run_id@,
        out matches Err(e) ==> failure_text(e) == "child Task does not belong to this parent Run"@,
{
    if str_eq(task.parent_run_id.as_str(), parent_run_id) {
        Ok(())
    } else {
        Err(failed("child Task does not belong to this parent Run"))
    }
}

/// What cancelling one task of a subtree does.
#[derive(PartialEq, Eq, Structural, Clone, Copy, Debug)]
pub struct CancelSteps {
    /// Stop the child Run's execution, where it runs here.
    pub stop_execution: bool,
    /// Move the child Run to cancelled.
    pub cancel_run: bool,
    /// Move the task to cancelled.
    pub cancel_task: bool,
}

/// A Run still going is stopped, and moved to cancelled where its status allows it; a task
/// not yet finished is cancelled. Finished Runs and tasks are left alone.
pub fn cancel_steps(run_terminal: bool, run_can_cancel: bool, task_status: AgentTaskStatus) -> (out: CancelSteps)
    ensures
        out.stop_execution == !run_terminal,
        out.cancel_run == (!run_terminal && run_can_cancel),
        out.cancel_task == !task_is_terminal(task_status),
{
    CancelSteps {
        stop_execution: !run_terminal,
        cancel_run: !run_terminal && run_can_cancel,
        cancel_task: !task_status.is_terminal(),
    }
}

// ---------------------------------------------------------------------------------------------
// Coordinating child executions
// ---------------------------------------------------------------------------------------------

/// The deepest nesting that may still spawn children.
pub const MAX_AGENT_DEPTH: u32 = 3;

/// The child-task tools a parent Run at `agent_depth` is offered: all five below the maximum
/// depth, none from there on.
pub fn child_tool_kinds(agent_depth: u32) -> (out: Vec<AgentToolKind>)
    ensures
        agent_depth >= MAX_AGENT_DEPTH ==> out@.len() == 0,
        agent_depth < MAX_AGENT_DEPTH ==> out@ == seq![
            AgentToolKind::Spawn,
            AgentToolKind::Send,
            AgentToolKind::Wait,
            AgentToolKind::Cancel,
            AgentToolKind::Collect,
        ],
{
    if agent_depth >= MAX_AGENT_DEPTH {
        return Vec::new();
    }
    vec![AgentToolKind::Spawn, AgentToolKind::Send, AgentToolKind::Wait, AgentToolKind::Cancel, AgentToolKind::Collect]
}

/// What interrupts the wait on a child's execution.
#[derive(PartialEq, Eq, Structural, Clone, Copy, Debug)]
pub enum ExecutionEvent {
    /// The parent cancelled the task.
    Cancelled,
    /// The child's execution ended.
    Finished,
    /// A heartbeat tried to renew the execution lease.
    Heartbeat { renewed: bool },
}

/// What the coordinator does about it.
#[derive(PartialEq, Eq, Structural, Clone, Copy, Debug)]
pub enum ExecutionStep {
    /// Keep waiting.
    Continue,
    /// The execution is over.
    Done,
    /// Cancel the child Run, wait for it, and stop; `lease_lost` fails the task afterwards.
    CancelChild { lease_lost: bool },
}

/// A cancellation or a lost lease cancels the child; a renewed lease keeps waiting.
pub fn execution_step(event: ExecutionEvent) -> (out: ExecutionStep)
    ensures
        out == match event {
            ExecutionEvent::Cancelled => ExecutionStep::CancelChild { lease_lost: false },
            ExecutionEvent::Finished => ExecutionStep::Done,
            ExecutionEvent::Heartbeat { renewed } => if renewed {
                ExecutionStep::Continue
            } else {
                ExecutionStep::CancelChild { lease_lost: true }
            },
        },
{
    match event {
        ExecutionEvent::Cancelled => ExecutionStep::CancelChild { lease_lost: false },
        ExecutionEvent::Finished => ExecutionStep::Done,
        ExecutionEvent::Heartbeat { renewed } => if renewed {
            ExecutionStep::Continue
        } else {
            ExecutionStep::CancelChild { lease_lost: true }
        },
    }
}

/// The failure code of a task whose execution lease was lost.
pub const LEASE_LOST_CODE: &'static str = "agent_task_lease_lost";

/// A launch needs an installed executor and the task the child Run belongs to.
pub fn launch_check(executor_ready: bool, parent_task_id: Option<&str>) -> (out: Result<String, String>)
    ensures
        match out {
            Ok(id) => executor_ready && (parent_task_id matches Some(t) && id@ == t@),
            Err(code) => code@ == if !executor_ready {
                "multi_agent_executor_not_ready"@
            } else {
                "multi_agent_task_identity_missing"@
            } && !(executor_ready && parent_task_id is Some),
        },
{
    if !executor_ready {
        return Err("multi_agent_executor_not_ready".to_owned());
    }
    match parent_task_id {
        Some(t) => Ok(t.to_owned()),
        None => Err("multi_agent_task_identity_missing".to_owned()),
    }
}

/// A failed lease claim, with the store's error.
pub fn lease_claim_failure(error: &str) -> (out: String)
    ensures
        out@ == "agent_task_lease_claim_failed:"@ + error@,
{
    let mut out = "agent_task_lease_claim_failed:".to_owned();
    push_str(&mut out, error);
    out
}

/// The principal recovered child Runs execute as.
pub const RECOVERY_PRINCIPAL: &'static str = "system:multi-agent-recovery";

/// A recovered child reuses the latest grant snapshot only when it belongs to the child's
/// session and Run and has not expired.
pub fn recovery_grant_check(
    grant_session_id: &str,
    grant_run_id: Option<&str>,
    expires_at_ms: Option<i64>,
    session_id: &str,
    run_id: &str,
    now_ms: i64,
) -> (out: Result<(), String>)
    ensures
        out is Ok <==> (grant_session_id@ == session_id@ && (grant_run_id matches Some(r) && r@ == run_id@)
            && !(expires_at_ms matches Some(e) && e <= now_ms)),
        out matches Err(code) ==> code@ == "agent_task_recovery_grant_invalid"@,
{
    let run_matches = match grant_run_id {
        Some(r) => str_eq(r, run_id),
        None => false,
    };
    let expired = match expires_at_ms {
        Some(e) => e <= now_ms,
        None => false,
    };
    if !str_eq(grant_session_id, session_id) || !run_matches || expired {
        Err("agent_task_recovery_grant_invalid".to_owned())
    } else {
        Ok(())
    }
}

/// The source recorded on grants reissued for a recovered task.
pub fn recovery_grant_source(task_id: &str) -> (out: String)
    ensures
        out@ == "multi_agent_recovery:"@ + task_id@,
{
    let mut out = "multi_agent_recovery:".to_owned();
    push_str(&mut out, task_id);
    out
}

/// A task failed during reconciliation takes its child Run down with it, when the Run is not
/// finished and may still fail.
pub fn fails_child_run(run_terminal: bool, run_can_fail: bool) -> (out: bool)
    ensures
        out == (!run_terminal && run_can_fail),
{
    !run_terminal && run_can_fail
}

} // verus!
