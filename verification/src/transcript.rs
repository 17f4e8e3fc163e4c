//! The append-only transcript as the agent kernel reads it.

use vstd::prelude::*;

use crate::text::{concat, push_str};

verus! {

/// The kind of a persisted transcript item.
#[derive(PartialEq, Eq, Structural, Clone, Copy, Debug)]
pub enum TranscriptItemKind {
    User,
    Assistant,
    Plan,
    ToolExecution,
    Approval,
    UserInputRequest,
    Reasoning,
    CommandExecution,
    FileChange,
    McpCall,
    DynamicToolCall,
    CollabToolCall,
    Review,
    ContextCompaction,
    SystemContext,
}

/// Lifecycle status of a transcript item.
#[derive(PartialEq, Eq, Structural, Clone, Copy, Debug)]
pub enum ItemStatus {
    Pending,
    InProgress,
    Completed,
    Failed,
    Interrupted,
}

/// The part of a tool execution result that a model may see.
#[derive(Clone, Debug)]
pub struct ToolExecutionResult {
    pub status: String,
    pub model_content: String,
}

/// Item payloads; status and change-kind fields hold their rendered display text.
#[derive(Clone, Debug)]
pub enum ItemPayload {
    User { text: String },
    Assistant { text: String },
    Plan { text: String },
    Reasoning { summary: String },
    Review { summary: String },
    ToolExecution { tool_call_id: String, name: String, result: Option<ToolExecutionResult> },
    CommandExecution { command_summary: String, status: String },
    FileChange { path: String, change_kind: String },
    McpCall { tool_name: String, status: String },
    DynamicToolCall { namespace: String, name: String, status: String },
    CollabToolCall { title: String, status: String, summary: Option<String> },
    SystemContext { message: String },
    Approval { summary: String },
    ContextCompaction,
    UserInputRequest,
}

/// One persisted transcript item. `payload_json` is the item's payload in its persisted JSON
/// encoding, which compaction quotes for payloads that have no text rendering.
#[derive(Clone, Debug)]
pub struct TranscriptItem {
    pub sequence: u64,
    pub run_id: Option<String>,
    pub kind: TranscriptItemKind,
    pub status: ItemStatus,
    pub payload: ItemPayload,
    pub payload_json: String,
}

pub open spec fn opt_view(value: Option<String>) -> Option<Seq<char>> {
    match value {
        Some(s) => Some(s@),
        None => None,
    }
}

/// The text a payload contributes to model views and compaction sources. Approval summaries
/// are included only when `with_approval` holds.
pub open spec fn payload_text(payload: ItemPayload, with_approval: bool) -> Option<Seq<char>> {
    match payload {
        ItemPayload::User { text } => Some(text@),
        ItemPayload::Assistant { text } => Some(text@),
        ItemPayload::Plan { text } => Some(text@),
        ItemPayload::Reasoning { summary } => Some(summary@),
        ItemPayload::Review { summary } => Some(summary@),
        ItemPayload::ToolExecution { result, .. } => match result {
            Some(r) => Some(r.model_content@),
            None => None,
        },
        ItemPayload::CommandExecution { command_summary, status } => Some(
            command_summary@ + ": "@ + status@,
        ),
        ItemPayload::FileChange { path, change_kind } => Some(change_kind@ + ": "@ + path@),
        ItemPayload::McpCall { tool_name, status } => Some(tool_name@ + ": "@ + status@),
        ItemPayload::DynamicToolCall { namespace, name, status } => Some(
            namespace@ + "."@ + name@ + ": "@ + status@,
        ),
        ItemPayload::CollabToolCall { title, status, summary } => Some(
            title@ + ": "@ + status@ + match summary {
                Some(s) => ": "@ + s@,
                None => Seq::<char>::empty(),
            },
        ),
        ItemPayload::SystemContext { message } => Some(message@),
        ItemPayload::Approval { summary } => if with_approval {
            Some(summary@)
        } else {
            None
        },
        ItemPayload::ContextCompaction => None,
        ItemPayload::UserInputRequest => None,
    }
}

fn join3(a: &str, b: &str, c: &str) -> (out: String)
    ensures
        out@ == a@ + b@ + c@,
{
    let mut out = concat(a, b);
    push_str(&mut out, c);
    out
}

/// Renders the text of a payload (see `payload_text`).
pub fn transcript_text(payload: &ItemPayload, with_approval: bool) -> (out: Option<String>)
    ensures
        opt_view(out) == payload_text(*payload, with_approval),
{
    proof {
        reveal_strlit(": ");
        reveal_strlit(".");
    }
    match payload {
        ItemPayload::User { text } => Some(text.clone()),
        ItemPayload::Assistant { text } => Some(text.clone()),
        ItemPayload::Plan { text } => Some(text.clone()),
        ItemPayload::Reasoning { summary } => Some(summary.clone()),
        ItemPayload::Review { summary } => Some(summary.clone()),
        ItemPayload::ToolExecution { result, .. } => match result {
            Some(r) => Some(r.model_content.clone()),
            None => None,
        },
        ItemPayload::CommandExecution { command_summary, status } => Some(
            join3(command_summary, ": ", status),
        ),
        ItemPayload::FileChange { path, change_kind } => Some(join3(change_kind, ": ", path)),
        ItemPayload::McpCall { tool_name, status } => Some(join3(tool_name, ": ", status)),
        ItemPayload::DynamicToolCall { namespace, name, status } => {
            let mut out = join3(namespace, ".", name);
            push_str(&mut out, ": ");
            push_str(&mut out, status);
            Some(out)
        },
        ItemPayload::CollabToolCall { title, status, summary } => {
            let mut out = join3(title, ": ", status);
            match summary {
                Some(s) => {
                    push_str(&mut out, ": ");
                    push_str(&mut out, s);
                    assert(out@ =~= title@ + ": "@ + status@ + (": "@ + s@));
                },
                None => {
                    assert(out@ =~= title@ + ": "@ + status@ + Seq::<char>::empty());
                },
            }
            Some(out)
        },
        ItemPayload::SystemContext { message } => Some(message.clone()),
        ItemPayload::Approval { summary } => if with_approval {
            Some(summary.clone())
        } else {
            None
        },
        ItemPayload::ContextCompaction => None,
        ItemPayload::UserInputRequest => None,
    }
}

/// The semantic summary stored in a compaction checkpoint.
#[derive(Clone, Debug)]
pub struct CompactionSummary {
    pub semantic_markdown: String,
    pub latest_user_goal: Option<String>,
    pub preserved_identifiers: Vec<String>,
}

/// An accepted compaction checkpoint covering the transcript through a sequence number.
#[derive(Clone, Debug)]
pub struct CompactionCheckpoint {
    pub id: String,
    pub run_id: Option<String>,
    pub covered_through_sequence: u64,
    pub summary: CompactionSummary,
}

} // verus!
