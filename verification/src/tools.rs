//! Tool calls, their results, and the error a tool execution reports.

use vstd::prelude::*;

use crate::json::JsonValue;
use crate::text::concat;

verus! {

/// A tool that could not run to a result.
#[derive(Debug)]
pub enum ToolExecutionError {
    Failed(String),
}

impl ToolExecutionError {
    /// The error's message.
    pub fn message(&self) -> (out: String)
        ensures
            out@ == match self {
                ToolExecutionError::Failed(detail) => "tool execution failed: "@ + detail@,
            },
    {
        match self {
            ToolExecutionError::Failed(detail) => concat("tool execution failed: ", detail),
        }
    }
}

/// A tool call requested by the model.
#[derive(Debug)]
pub struct ToolCall {
    pub id: String,
    pub name: String,
    pub arguments: JsonValue,
}

/// How a tool call ended.
#[derive(PartialEq, Eq, Structural, Clone, Copy, Debug)]
pub enum ToolResultStatus {
    Succeeded,
    Failed,
    Rejected,
    Aborted,
    TimedOut,
}

/// The result of a tool call; image payloads stay with the caller.
#[derive(Debug)]
pub struct ToolResult {
    pub call_id: String,
    pub tool_name: String,
    pub status: ToolResultStatus,
    pub model_content: String,
    pub structured_content: JsonValue,
}

/// The status of a tool result as recorded.
pub open spec fn status_text(status: ToolResultStatus) -> Seq<char> {
    match status {
        ToolResultStatus::Succeeded => "succeeded"@,
        ToolResultStatus::Failed => "failed"@,
        ToolResultStatus::Rejected => "rejected"@,
        ToolResultStatus::Aborted => "aborted"@,
        ToolResultStatus::TimedOut => "timed_out"@,
    }
}

pub fn tool_status(status: ToolResultStatus) -> (out: &'static str)
    ensures
        out@ == status_text(status),
{
    match status {
        ToolResultStatus::Succeeded => "succeeded",
        ToolResultStatus::Failed => "failed",
        ToolResultStatus::Rejected => "rejected",
        ToolResultStatus::Aborted => "aborted",
        ToolResultStatus::TimedOut => "timed_out",
    }
}

} // verus!
