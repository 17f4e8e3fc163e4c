use hachimi_agent::tools::{tool_status, ToolExecutionError, ToolResultStatus};

#[test]
fn tool_errors_remain_typed() {
    let error = ToolExecutionError::Failed("error".into());
    assert_eq!(error.message(), "tool execution failed: error");
}

#[test]
fn tool_statuses_are_recorded_by_name() {
    assert_eq!(tool_status(ToolResultStatus::Succeeded), "succeeded");
    assert_eq!(tool_status(ToolResultStatus::TimedOut), "timed_out");
    assert_eq!(tool_status(ToolResultStatus::Rejected), "rejected");
}
