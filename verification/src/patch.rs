//! The apply-patch tool's own rules: which files need a baseline before the patch is applied,
//! how a host failure is reported, and how much of the host's result the model sees.

use vstd::prelude::*;

use crate::json::{json_print, json_view, members_view, print_json, JsonValue, JsonView};
use crate::security::{ToolDescriptor, ToolEffect};
use crate::text::{chars_of, push_str, str_eq};

verus! {

/// The name under which the patch tool is offered.
pub open spec fn apply_patch_tool_name() -> Seq<char> {
    "apply_patch"@
}

/// The argument schema: one non-empty `patch` string of at most 4 MiB, nothing else.
pub open spec fn apply_patch_schema() -> JsonView {
    JsonView::Object(
        seq![
            ("type"@, JsonView::Str("object"@)),
            (
                "properties"@,
                JsonView::Object(
                    seq![
                        (
                            "patch"@,
                            JsonView::Object(
                                seq![
                                    ("type"@, JsonView::Str("string"@)),
                                    ("minLength"@, JsonView::Number("1"@)),
                                    ("maxLength"@, JsonView::Number("4194304"@)),
                                ],
                            ),
                        ),
                    ],
                ),
            ),
            ("required"@, JsonView::Array(seq![JsonView::Str("patch"@)])),
            ("additionalProperties"@, JsonView::Bool(false)),
        ],
    )
}

fn member(key: &str, value: JsonValue) -> (out: (String, JsonValue))
    ensures
        out.0@ == key@,
        out.1 == value,
{
    (key.to_owned(), value)
}

fn text_value(text: &str) -> (out: JsonValue)
    ensures
        json_view(out) == JsonView::Str(text@),
{
    JsonValue::String(text.to_owned())
}

fn number_value(text: &str) -> (out: JsonValue)
    ensures
        json_view(out) == JsonView::Number(text@),
{
    JsonValue::Number(text.to_owned())
}

fn object_of(members: Vec<(String, JsonValue)>) -> (out: JsonValue)
    ensures
        out == JsonValue::Object(members),
{
    JsonValue::Object(members)
}

/// The patch tool: one workspace write that never runs beside another call and needs the
/// `workspace.write` scope.
pub fn apply_patch_descriptor() -> (d: ToolDescriptor)
    ensures
        d.name@ == apply_patch_tool_name(),
        d.description@ == "Apply one bounded multi-file patch inside the active checkout. Supports add, update, delete, and move hunks; all targets are preflighted before the Workspace Worker commits the transaction."@,
        json_view(d.input_schema) == apply_patch_schema(),
        d.effect == ToolEffect::WorkspaceWrite,
        !d.parallel_safe,
        d.required_scopes@.len() == 1 && d.required_scopes@[0]@ == "workspace.write"@,
{
    let pm = vec![
        member("type", text_value("string")),
        member("minLength", number_value("1")),
        member("maxLength", number_value("4194304")),
    ];
    let ghost pm_s = pm@;
    let patch_field = object_of(pm);
    proof {
        crate::budget::lemma_members_view(pm_s);
        assert(members_view(pm_s) =~= seq![
            ("type"@, JsonView::Str("string"@)),
            ("minLength"@, JsonView::Number("1"@)),
            ("maxLength"@, JsonView::Number("4194304"@)),
        ]);
    }
    let ghost patch_view = json_view(patch_field);
    let props = vec![member("patch", patch_field)];
    let ghost props_s = props@;
    let properties = object_of(props);
    proof {
        crate::budget::lemma_members_view(props_s);
        assert(members_view(props_s) =~= seq![("patch"@, patch_view)]);
    }
    let ghost properties_view = json_view(properties);
    let req = vec![text_value("patch")];
    let ghost req_s = req@;
    let required = JsonValue::Array(req);
    proof {
        crate::budget::lemma_items_view(req_s);
        assert(crate::json::items_view(req_s) =~= seq![JsonView::Str("patch"@)]);
    }
    let ghost required_view = json_view(required);
    let top = vec![
        member("type", text_value("object")),
        member("properties", properties),
        member("required", required),
        member("additionalProperties", JsonValue::Bool(false)),
    ];
    let ghost top_s = top@;
    let schema = object_of(top);
    proof {
        crate::budget::lemma_members_view(top_s);
        assert(members_view(top_s) =~= seq![
            ("type"@, JsonView::Str("object"@)),
            ("properties"@, properties_view),
            ("required"@, required_view),
            ("additionalProperties"@, JsonView::Bool(false)),
        ]);
    }
    ToolDescriptor {
        name: "apply_patch".to_owned(),
        description: "Apply one bounded multi-file patch inside the active checkout. Supports add, update, delete, and move hunks; all targets are preflighted before the Workspace Worker commits the transaction.".to_owned(),
        input_schema: schema,
        effect: ToolEffect::WorkspaceWrite,
        parallel_safe: false,
        required_scopes: vec!["workspace.write".to_owned()],
    }
}

/// Most characters of a patch result shown to the model.
pub const MAX_MODEL_RESULT_CHARS: usize = 131072;

pub open spec fn patch_marker() -> Seq<char> {
    "\n… patch result clipped by host adapter …\n"@
}

/// The compact JSON of the host's result; a longer one keeps its first and last halves of
/// `MAX_MODEL_RESULT_CHARS` characters around a marker.
pub open spec fn patch_model_content(result: JsonValue) -> Seq<char> {
    let encoded = json_print(json_view(result));
    let half = (MAX_MODEL_RESULT_CHARS / 2) as int;
    if encoded.len() <= MAX_MODEL_RESULT_CHARS {
        encoded
    } else {
        encoded.take(half) + patch_marker() + encoded.skip(encoded.len() - half)
    }
}

pub fn bounded_model_content(result: &JsonValue) -> (out: String)
    ensures
        out@ == patch_model_content(*result),
{
    let encoded = print_json(result);
    let chars = chars_of(encoded.as_str());
    if chars.len() <= MAX_MODEL_RESULT_CHARS {
        return encoded;
    }
    crate::text::join_head_marker_tail(&chars, MAX_MODEL_RESULT_CHARS / 2, "\n… patch result clipped by host adapter …\n", MAX_MODEL_RESULT_CHARS / 2)
}

/// The paths a move touches, at either end.
pub open spec fn moved_paths(moves: Seq<(String, String)>) -> Set<Seq<char>> {
    Set::new(|p: Seq<char>| exists|i: int| 0 <= i < moves.len() && ((#[trigger] moves[i]).0@ == p || moves[i].1@ == p))
}

fn is_moved(moves: &Vec<(String, String)>, path: &String) -> (b: bool)
    ensures
        b == moved_paths(moves@).contains(path@),
{
    let mut i: usize = 0;
    while i < moves.len()
        invariant
            i <= moves@.len(),
            forall|k: int| 0 <= k < i ==> (#[trigger] moves@[k]).0@ != path@ && moves@[k].1@ != path@,
        decreases moves@.len() - i,
    {
        if str_eq(moves[i].0.as_str(), path.as_str()) || str_eq(moves[i].1.as_str(), path.as_str()) {
            assert(moves@[i as int].0@ == path@ || moves@[i as int].1@ == path@);
            return true;
        }
        i = i + 1;
    }
    false
}

/// The targets that need a write baseline: those no move touches (moves capture their own).
pub fn write_baseline_targets(moves: &Vec<(String, String)>, targets: &Vec<String>) -> (out: Vec<String>)
    ensures
        out@.map_values(|s: String| s@) == targets@.map_values(|s: String| s@).filter(
            |p: Seq<char>| !moved_paths(moves@).contains(p),
        ),
{
    let ghost keep = |p: Seq<char>| !moved_paths(moves@).contains(p);
    let ghost tv = targets@.map_values(|s: String| s@);
    let mut out: Vec<String> = Vec::new();
    let mut i: usize = 0;
    while i < targets.len()
        invariant
            i <= targets@.len(),
            tv == targets@.map_values(|s: String| s@),
            keep == (|p: Seq<char>| !moved_paths(moves@).contains(p)),
            out@.map_values(|s: String| s@) == tv.take(i as int).filter(keep),
        decreases targets@.len() - i,
    {
        proof {
            assert(tv.take(i + 1).drop_last() =~= tv.take(i as int));
            reveal(Seq::filter);
        }
        let ghost before = out@;
        if !is_moved(moves, &targets[i]) {
            out.push(targets[i].clone());
            assert(out@.map_values(|s: String| s@) =~= before.map_values(|s: String| s@).push(tv[i as int]));
        }
        assert(out@.map_values(|s: String| s@) == tv.take(i + 1).filter(keep));
        i = i + 1;
    }
    assert(tv.take(i as int) =~= tv);
    out
}

/// How a Workspace Host failure ends a patch call.
#[derive(PartialEq, Eq, Structural, Clone, Copy, Debug)]
pub enum PatchFailureKind {
    Aborted,
    TimedOut,
    Failed,
}

/// A cancelled host call aborts, a timed-out one times out, any other fails; the message
/// names the host's error code and message.
pub fn patch_failure(cancelled: bool, timed_out: bool, code_name: &str, message: &str) -> (out: (PatchFailureKind, String))
    ensures
        out.0 == (if cancelled {
            PatchFailureKind::Aborted
        } else if timed_out {
            PatchFailureKind::TimedOut
        } else {
            PatchFailureKind::Failed
        }),
        out.1@ == "workspace patch "@ + code_name@ + ": "@ + message@,
{
    let mut text = "workspace patch ".to_owned();
    push_str(&mut text, code_name);
    push_str(&mut text, ": ");
    push_str(&mut text, message);
    let kind = if cancelled {
        PatchFailureKind::Aborted
    } else if timed_out {
        PatchFailureKind::TimedOut
    } else {
        PatchFailureKind::Failed
    };
    (kind, text)
}

} // verus!
