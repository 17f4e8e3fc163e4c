//! The projection of a running tool loop into the transcript: which tool calls are open, and
//! which assistant and reasoning items are being streamed.

use vstd::prelude::*;

use crate::json::{json_view, JsonValue, JsonView};
use crate::text::{decimal, push_str, str_eq};
use crate::tools::{ToolCall, ToolResultStatus};
use crate::model::{ModelMessage, ModelRole};
use crate::transcript::ItemStatus;

verus! {

/// The status a finished tool call's transcript item takes.
pub open spec fn item_status_of(status: ToolResultStatus) -> ItemStatus {
    match status {
        ToolResultStatus::Succeeded => ItemStatus::Completed,
        ToolResultStatus::Aborted => ItemStatus::Interrupted,
        _ => ItemStatus::Failed,
    }
}

pub fn completed_item_status(status: ToolResultStatus) -> (out: ItemStatus)
    ensures
        out == item_status_of(status),
{
    match status {
        ToolResultStatus::Succeeded => ItemStatus::Completed,
        ToolResultStatus::Aborted => ItemStatus::Interrupted,
        _ => ItemStatus::Failed,
    }
}

/// An item being streamed: its id and the text received so far.
#[derive(Debug)]
pub struct OpenItem {
    pub item_id: String,
    pub text: String,
}

pub open spec fn open_view(o: Option<OpenItem>) -> Option<(Seq<char>, Seq<char>)> {
    match o {
        Some(i) => Some((i.item_id@, i.text@)),
        None => None,
    }
}

/// A started call as the projection keeps it: its name, its arguments and its item.
pub type CallView = (Seq<char>, JsonView, Seq<char>);

pub open spec fn call_entry(e: (ToolCall, String)) -> CallView {
    (e.0.name@, json_view(e.0.arguments), e.1@)
}

/// The started calls by id; a later start of the same id replaces an earlier one.
pub open spec fn calls_map(entries: Seq<(ToolCall, String)>) -> Map<Seq<char>, CallView>
    decreases entries.len(),
{
    if entries.len() == 0 {
        Map::empty()
    } else {
        calls_map(entries.drop_last()).insert(entries.last().0.id@, call_entry(entries.last()))
    }
}

/// The entries whose call id is not `id`.
pub open spec fn without(entries: Seq<(ToolCall, String)>, id: Seq<char>) -> Seq<(ToolCall, String)>
    decreases entries.len(),
{
    if entries.len() == 0 {
        Seq::empty()
    } else {
        let w = without(entries.drop_last(), id);
        if entries.last().0.id@ == id { w } else { w.push(entries.last()) }
    }
}

proof fn lemma_without(entries: Seq<(ToolCall, String)>, id: Seq<char>)
    ensures
        calls_map(without(entries, id)) =~= calls_map(entries).remove(id),
    decreases entries.len(),
{
    if entries.len() > 0 {
        let d = entries.drop_last();
        lemma_without(d, id);
        if entries.last().0.id@ != id {
            let w = without(d, id);
            assert(w.push(entries.last()).drop_last() =~= w);
        }
    }
}

proof fn lemma_contains(entries: Seq<(ToolCall, String)>, id: Seq<char>)
    ensures
        calls_map(entries).dom().contains(id) <==> exists|i: int| 0 <= i < entries.len() && (#[trigger] entries[i]).0.id@ == id,
    decreases entries.len(),
{
    if entries.len() > 0 {
        let d = entries.drop_last();
        lemma_contains(d, id);
        if calls_map(d).dom().contains(id) {
            let i = choose|i: int| 0 <= i < d.len() && (#[trigger] d[i]).0.id@ == id;
            assert(entries[i] == d[i]);
        }
        if exists|i: int| 0 <= i < entries.len() && (#[trigger] entries[i]).0.id@ == id {
            let i = choose|i: int| 0 <= i < entries.len() && (#[trigger] entries[i]).0.id@ == id;
            if i < entries.len() - 1 {
                assert(d[i] == entries[i]);
            }
        }
    }
}

proof fn lemma_last(entries: Seq<(ToolCall, String)>, id: Seq<char>, i: int)
    requires
        0 <= i < entries.len(),
        entries[i].0.id@ == id,
        forall|j: int| i < j < entries.len() ==> (#[trigger] entries[j]).0.id@ != id,
    ensures
        calls_map(entries).dom().contains(id),
        calls_map(entries)[id] == call_entry(entries[i]),
    decreases entries.len(),
{
    if i < entries.len() - 1 {
        let d = entries.drop_last();
        assert forall|j: int| i < j < d.len() implies (#[trigger] d[j]).0.id@ != id by {
            assert(d[j] == entries[j]);
        }
        lemma_last(d, id, i);
    }
}

/// What the loop's projection keeps between events.
#[derive(Debug)]
pub struct LoopProjection {
    /// The started calls with their transcript items, in start order.
    pub calls: Vec<(ToolCall, String)>,
    pub open_assistant: Option<OpenItem>,
    pub open_reasoning: Option<OpenItem>,
    pub last_assistant: Option<OpenItem>,
}

impl LoopProjection {
    /// The started calls that have not finished, by id.
    pub open spec fn calls(&self) -> Map<Seq<char>, CallView> {
        calls_map(self.calls@)
    }

    /// A projection with nothing started.
    pub fn new() -> (p: Self)
        ensures
            p.calls() == Map::<Seq<char>, CallView>::empty(),
            p.open_assistant is None && p.open_reasoning is None && p.last_assistant is None,
    {
        LoopProjection { calls: Vec::new(), open_assistant: None, open_reasoning: None, last_assistant: None }
    }

    /// A tool call started; its transcript item is `item_id`.
    pub fn tool_started(&mut self, call: ToolCall, item_id: String)
        ensures
            final(self).calls() == old(self).calls().insert(call.id@, (call.name@, json_view(call.arguments), item_id@)),
            open_view(final(self).open_assistant) == open_view(old(self).open_assistant),
            open_view(final(self).open_reasoning) == open_view(old(self).open_reasoning),
            open_view(final(self).last_assistant) == open_view(old(self).last_assistant),
    {
        let ghost before = self.calls@;
        let ghost e = (call, item_id);
        self.calls.push((call, item_id));
        assert(self.calls@.drop_last() =~= before);
        assert(self.calls@.last() == e);
    }

    /// A tool call finished: its started entry, if it was started, leaves the projection and
    /// is handed back.
    pub fn tool_completed(&mut self, call_id: &str) -> (out: Option<(ToolCall, String)>)
        ensures
            final(self).calls() == old(self).calls().remove(call_id@),
            match out {
                Some(e) => e.0.id@ == call_id@ && old(self).calls().dom().contains(call_id@)
                    && old(self).calls()[call_id@] == call_entry(e),
                None => !old(self).calls().dom().contains(call_id@),
            },
            open_view(final(self).open_assistant) == open_view(old(self).open_assistant),
            open_view(final(self).open_reasoning) == open_view(old(self).open_reasoning),
            open_view(final(self).last_assistant) == open_view(old(self).last_assistant),
    {
        let ghost orig = self.calls@;
        proof {
            lemma_without(orig, call_id@);
            lemma_contains(orig, call_id@);
        }
        let mut taken: Vec<(ToolCall, String)> = Vec::new();
        std::mem::swap(&mut taken, &mut self.calls);
        assert(taken@ == orig);
        let mut found: Option<usize> = None;
        let mut k: usize = taken.len();
        while k > 0 && found.is_none()
            invariant
                taken@ == orig,
                k <= orig.len(),
                found is None ==> forall|j: int| k <= j < orig.len() ==> (#[trigger] orig[j]).0.id@ != call_id@,
                found matches Some(i) ==> i < orig.len() && orig[i as int].0.id@ == call_id@ && forall|j: int|
                    i < j < orig.len() ==> (#[trigger] orig[j]).0.id@ != call_id@,
            decreases k,
        {
            if str_eq(taken[k - 1].0.id.as_str(), call_id) {
                found = Some(k - 1);
            }
            k = k - 1;
        }
        proof {
            match found {
                Some(i) => {
                    lemma_last(orig, call_id@, i as int);
                },
                None => {
                    assert(forall|j: int| 0 <= j < orig.len() ==> (#[trigger] orig[j]).0.id@ != call_id@);
                },
            }
        }
        let mut kept: Vec<(ToolCall, String)> = Vec::new();
        let mut removed: Option<(ToolCall, String)> = None;
        let mut idx: usize = 0;
        let total = taken.len();
        for e in it: taken.into_iter()
            invariant
                it.seq() == orig,
                orig.len() == total,
                idx == it.index(),
                idx <= total,
                kept@ == without(orig.take(it.index() as int), call_id@),
                match found {
                    Some(i) => i < orig.len() && orig[i as int].0.id@ == call_id@ && (if it.index() > i {
                        removed == Some(orig[i as int])
                    } else {
                        removed is None
                    }),
                    None => removed is None,
                },
        {
            let ghost n = it.index() as int;
            proof {
                assert(orig.take(n + 1).drop_last() =~= orig.take(n));
                assert(orig.take(n + 1).last() == orig[n]);
            }
            assert(e == orig[n]);
            assert(idx < total);
            if str_eq(e.0.id.as_str(), call_id) {
                match found {
                    Some(i) => {
                        if i == idx {
                            removed = Some(e);
                        }
                    },
                    None => {},
                }
            } else {
                kept.push(e);
            }
            idx = idx + 1;
        }
        assert(orig.take(orig.len() as int) =~= orig);
        self.calls = kept;
        removed
    }

    /// A text delta of the model: outside Plan mode it opens the assistant item (as
    /// `fresh_item_id`) when none is open, and extends its text.
    pub fn assistant_delta(&mut self, delta: &str, plan_mode: bool, fresh_item_id: String) -> (opened: bool)
        ensures
            plan_mode ==> !opened && open_view(final(self).open_assistant) == open_view(old(self).open_assistant),
            !plan_mode ==> opened == (old(self).open_assistant is None) && open_view(final(self).open_assistant) == Some(
                match old(self).open_assistant {
                    Some(o) => (o.item_id@, o.text@ + delta@),
                    None => (fresh_item_id@, delta@),
                },
            ),
            final(self).calls() == old(self).calls(),
            open_view(final(self).open_reasoning) == open_view(old(self).open_reasoning),
            open_view(final(self).last_assistant) == open_view(old(self).last_assistant),
    {
        if plan_mode {
            return false;
        }
        extend(&mut self.open_assistant, delta, fresh_item_id)
    }

    /// A reasoning delta: it opens the reasoning item when none is open and extends its text.
    pub fn reasoning_delta(&mut self, delta: &str, fresh_item_id: String) -> (opened: bool)
        ensures
            opened == (old(self).open_reasoning is None),
            open_view(final(self).open_reasoning) == Some(
                match old(self).open_reasoning {
                    Some(o) => (o.item_id@, o.text@ + delta@),
                    None => (fresh_item_id@, delta@),
                },
            ),
            final(self).calls() == old(self).calls(),
            open_view(final(self).open_assistant) == open_view(old(self).open_assistant),
            open_view(final(self).last_assistant) == open_view(old(self).last_assistant),
    {
        extend(&mut self.open_reasoning, delta, fresh_item_id)
    }

    /// The model finished a response: the open assistant item becomes the last assistant item
    /// and is completed with its text (returned as a copy), and the open reasoning item is
    /// completed; nothing stays open.
    pub fn model_completed(&mut self) -> (out: (Option<(String, String)>, Option<OpenItem>))
        ensures
            open_view(final(self).last_assistant) == open_view(old(self).open_assistant),
            match out.0 {
                Some((id, text)) => open_view(old(self).open_assistant) == Some((id@, text@)),
                None => old(self).open_assistant is None,
            },
            open_view(out.1) == open_view(old(self).open_reasoning),
            final(self).open_assistant is None && final(self).open_reasoning is None,
            final(self).calls() == old(self).calls(),
    {
        let assistant = self.open_assistant.take();
        let completed = match &assistant {
            Some(a) => Some((a.item_id.clone(), a.text.clone())),
            None => None,
        };
        self.last_assistant = assistant;
        let reasoning = self.open_reasoning.take();
        (completed, reasoning)
    }
}

fn extend(slot: &mut Option<OpenItem>, delta: &str, fresh_item_id: String) -> (opened: bool)
    ensures
        opened == (*old(slot) is None),
        open_view(*final(slot)) == Some(
            match *old(slot) {
                Some(o) => (o.item_id@, o.text@ + delta@),
                None => (fresh_item_id@, delta@),
            },
        ),
{
    match slot {
        Some(o) => {
            push_str(&mut o.text, delta);
            false
        },
        None => {
            *slot = Some(OpenItem { item_id: fresh_item_id, text: delta.to_owned() });
            true
        },
    }
}

/// The event recorded when the loop compacted its context on the fly.
pub fn compaction_event_payload(before_chars: u64, after_chars: u64, reason: &str) -> (out: JsonValue)
    ensures
        json_view(out) == JsonView::Object(
            seq![
                ("afterChars"@, JsonView::Number(decimal(after_chars as nat))),
                ("beforeChars"@, JsonView::Number(decimal(before_chars as nat))),
                ("reason"@, JsonView::Str(reason@)),
            ],
        ),
{
    let members = vec![
        ("afterChars".to_owned(), JsonValue::Number(crate::text::decimal_string(after_chars))),
        ("beforeChars".to_owned(), JsonValue::Number(crate::text::decimal_string(before_chars))),
        ("reason".to_owned(), JsonValue::String(reason.to_owned())),
    ];
    proof {
        crate::budget::lemma_members_view(members@);
        assert(crate::json::members_view(members@) =~= seq![
            ("afterChars"@, JsonView::Number(decimal(after_chars as nat))),
            ("beforeChars"@, JsonView::Number(decimal(before_chars as nat))),
            ("reason"@, JsonView::Str(reason@)),
        ]);
    }
    JsonValue::Object(members)
}

// ---------------------------------------------------------------------------------------------
// Around one run of the tool loop
// ---------------------------------------------------------------------------------------------

/// The goal a plan proposes: the text of the last user message, or nothing.
pub open spec fn last_user_text(messages: Seq<ModelMessage>) -> Seq<char>
    decreases messages.len(),
{
    if messages.len() == 0 {
        Seq::empty()
    } else if messages.last().role == ModelRole::User {
        messages.last().content@
    } else {
        last_user_text(messages.drop_last())
    }
}

pub fn proposed_goal(messages: &Vec<ModelMessage>) -> (out: String)
    ensures
        out@ == last_user_text(messages@),
{
    let mut i: usize = messages.len();
    assert(messages@.take(i as int) =~= messages@);
    while i > 0
        invariant
            i <= messages@.len(),
            last_user_text(messages@) == last_user_text(messages@.take(i as int)),
        decreases i,
    {
        proof {
            assert(messages@.take(i as int).drop_last() =~= messages@.take(i - 1));
            assert(messages@.take(i as int).last() == messages@[i - 1]);
        }
        if messages[i - 1].role == ModelRole::User {
            return messages[i - 1].content.clone();
        }
        i = i - 1;
    }
    String::new()
}

/// What happens before the loop runs.
#[derive(PartialEq, Eq, Structural, Clone, Copy, Debug)]
pub enum RunPreflight {
    /// The provider cannot take text: the Run fails with `provider_text_input_unsupported`.
    TextInputUnsupported,
    /// The Run was cancelled before it started.
    Cancelled,
    /// The Run may start.
    Start,
}

pub fn run_preflight(text_input: bool, cancelled: bool) -> (out: RunPreflight)
    ensures
        out == (if !text_input {
            RunPreflight::TextInputUnsupported
        } else if cancelled {
            RunPreflight::Cancelled
        } else {
            RunPreflight::Start
        }),
{
    if !text_input {
        RunPreflight::TextInputUnsupported
    } else if cancelled {
        RunPreflight::Cancelled
    } else {
        RunPreflight::Start
    }
}

/// The line of context every model request of the Run carries; the fields are given as the
/// host renders them, and a missing host context is said to be not supplied.
pub open spec fn request_context_text(
    run_id: Seq<char>,
    execution_target: Seq<char>,
    permission_profile: Seq<char>,
    approval_policy: Seq<char>,
    accepted_plan_id: Seq<char>,
    accepted_plan_revision: Seq<char>,
    host_context: Option<Seq<char>>,
) -> Seq<char> {
    "run_id="@ + run_id + "; execution_target="@ + execution_target + "; permission_profile="@ + permission_profile
        + "; approval_policy="@ + approval_policy + "; accepted_plan_id="@ + accepted_plan_id
        + "; accepted_plan_revision="@ + accepted_plan_revision + "; host_context="@ + match host_context {
        Some(h) => h,
        None => "not supplied"@,
    } + "."@
}

pub fn run_request_context(
    run_id: &str,
    execution_target: &str,
    permission_profile: &str,
    approval_policy: &str,
    accepted_plan_id: &str,
    accepted_plan_revision: &str,
    host_context: Option<&str>,
) -> (out: String)
    ensures
        out@ == request_context_text(
            run_id@,
            execution_target@,
            permission_profile@,
            approval_policy@,
            accepted_plan_id@,
            accepted_plan_revision@,
            match host_context {
                Some(h) => Some(h@),
                None => None,
            },
        ),
{
    let mut out = "run_id=".to_owned();
    push_str(&mut out, run_id);
    push_str(&mut out, "; execution_target=");
    push_str(&mut out, execution_target);
    push_str(&mut out, "; permission_profile=");
    push_str(&mut out, permission_profile);
    push_str(&mut out, "; approval_policy=");
    push_str(&mut out, approval_policy);
    push_str(&mut out, "; accepted_plan_id=");
    push_str(&mut out, accepted_plan_id);
    push_str(&mut out, "; accepted_plan_revision=");
    push_str(&mut out, accepted_plan_revision);
    push_str(&mut out, "; host_context=");
    match host_context {
        Some(h) => push_str(&mut out, h),
        None => push_str(&mut out, "not supplied"),
    }
    push_str(&mut out, ".");
    out
}

/// Items left open when the loop ends are interrupted by a cancellation and failed otherwise.
pub fn unfinished_item_status(cancelled: bool) -> (out: ItemStatus)
    ensures
        out == (if cancelled { ItemStatus::Interrupted } else { ItemStatus::Failed }),
{
    if cancelled { ItemStatus::Interrupted } else { ItemStatus::Failed }
}

/// The item a successful Run ends with.
#[derive(PartialEq, Eq, Structural, Clone, Copy, Debug)]
pub enum FinalItem {
    /// A proposed plan holding the final text (Plan mode).
    Plan,
    /// The final assistant text.
    Assistant,
    /// Nothing: the last assistant item the loop projected already holds the final text.
    AlreadyProjected,
}

pub fn final_item(plan_mode: bool, final_text: &str, last_assistant: &Option<OpenItem>) -> (out: FinalItem)
    ensures
        out == (if plan_mode {
            FinalItem::Plan
        } else if (last_assistant matches Some(a) && a.text@ == final_text@) {
            FinalItem::AlreadyProjected
        } else {
            FinalItem::Assistant
        }),
{
    if plan_mode {
        return FinalItem::Plan;
    }
    match last_assistant {
        Some(a) => if str_eq(a.text.as_str(), final_text) {
            FinalItem::AlreadyProjected
        } else {
            FinalItem::Assistant
        },
        None => FinalItem::Assistant,
    }
}

/// A cancelled Run passes through cancelling unless it is there already or may not move there.
pub fn passes_through_cancelling(already_cancelling: bool, may_cancel: bool) -> (out: bool)
    ensures
        out == (!already_cancelling && may_cancel),
{
    !already_cancelling && may_cancel
}

/// The event that records an authority blocker, with the blocker's code.
#[derive(Clone, Debug)]
pub struct AttentionEvent {
    pub event: String,
    pub code: String,
}

/// How a Run that the loop could not finish (for a reason other than cancellation) is
/// recorded: the code of its system-context item, its failure code, and, when an authority
/// check asked for a person's attention, the event that carries that check's code.
#[derive(Clone, Debug)]
pub struct RunFailure {
    pub item_code: String,
    pub failure_code: String,
    pub attention: Option<AttentionEvent>,
}

/// An authority blocker (`Some` with its code) fails the Run with `authority_needs_attention`
/// and records the event `agent.authority_needs_attention`; any other error fails it with
/// `agent_runtime_failed`.
pub fn run_failure(needs_attention: Option<&str>) -> (out: RunFailure)
    ensures
        match needs_attention {
            Some(code) => {
                &&& out.item_code@ == "agent_authority_needs_attention"@
                &&& out.failure_code@ == "authority_needs_attention"@
                &&& out.attention matches Some(e) && e.event@ == "agent.authority_needs_attention"@
                    && e.code@ == code@
            },
            None => {
                &&& out.item_code@ == "agent_runtime_failed"@
                &&& out.failure_code@ == "agent_runtime_failed"@
                &&& out.attention is None
            },
        },
{
    match needs_attention {
        Some(code) => RunFailure {
            item_code: "agent_authority_needs_attention".to_owned(),
            failure_code: "authority_needs_attention".to_owned(),
            attention: Some(AttentionEvent { event: "agent.authority_needs_attention".to_owned(), code: code.to_owned() }),
        },
        None => RunFailure {
            item_code: "agent_runtime_failed".to_owned(),
            failure_code: "agent_runtime_failed".to_owned(),
            attention: None,
        },
    }
}

} // verus!
