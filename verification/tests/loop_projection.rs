use hachimi_agent::json::{parse_json, print_json};
use hachimi_agent::loop_projection::{
    compaction_event_payload, run_failure, completed_item_status, final_item, passes_through_cancelling, proposed_goal,
    run_preflight, run_request_context, unfinished_item_status, FinalItem, LoopProjection, OpenItem, RunPreflight,
};
use hachimi_agent::model::{plain_message, ModelRole};
use hachimi_agent::tools::{ToolCall, ToolResultStatus};
use hachimi_agent::transcript::ItemStatus;

fn call(id: &str, name: &str) -> ToolCall {
    ToolCall { id: id.into(), name: name.into(), arguments: parse_json("{}").unwrap() }
}

#[test]
fn finished_calls_leave_the_projection() {
    let mut projection = LoopProjection::new();
    projection.tool_started(call("a", "workspace_read_file"), "item-a".into());
    projection.tool_started(call("b", "workspace_exec"), "item-b".into());
    projection.tool_started(call("a", "workspace_read_file"), "item-a2".into());
    let (finished, item) = projection.tool_completed("a").expect("started");
    assert_eq!((finished.name.as_str(), item.as_str()), ("workspace_read_file", "item-a2"));
    assert!(projection.tool_completed("a").is_none());
    assert_eq!(projection.calls.len(), 1);
    assert!(projection.tool_completed("missing").is_none());
    let (finished, item) = projection.tool_completed("b").expect("started");
    assert_eq!((finished.id.as_str(), item.as_str()), ("b", "item-b"));
    assert!(projection.calls.is_empty());
}

#[test]
fn streamed_text_opens_one_item_per_response() {
    let mut projection = LoopProjection::new();
    assert!(!projection.assistant_delta("ignored", true, "plan-item".into()));
    assert!(projection.open_assistant.is_none());
    assert!(projection.assistant_delta("Hel", false, "item-1".into()));
    assert!(!projection.assistant_delta("lo", false, "item-unused".into()));
    assert!(projection.reasoning_delta("think", "reason-1".into()));
    let (assistant, reasoning) = projection.model_completed();
    assert_eq!(assistant, Some(("item-1".to_owned(), "Hello".to_owned())));
    let reasoning = reasoning.expect("reasoning");
    assert_eq!((reasoning.item_id.as_str(), reasoning.text.as_str()), ("reason-1", "think"));
    assert_eq!(projection.last_assistant.as_ref().map(|item| item.text.as_str()), Some("Hello"));
    assert!(projection.open_assistant.is_none() && projection.open_reasoning.is_none());
    let (assistant, reasoning) = projection.model_completed();
    assert!(assistant.is_none() && reasoning.is_none());
    assert!(projection.last_assistant.is_none());
}

#[test]
fn tool_statuses_map_to_item_statuses() {
    assert_eq!(completed_item_status(ToolResultStatus::Succeeded), ItemStatus::Completed);
    assert_eq!(completed_item_status(ToolResultStatus::Aborted), ItemStatus::Interrupted);
    assert_eq!(completed_item_status(ToolResultStatus::TimedOut), ItemStatus::Failed);
    assert_eq!(completed_item_status(ToolResultStatus::Rejected), ItemStatus::Failed);
}

#[test]
fn compaction_events_carry_sizes_and_reason() {
    assert_eq!(
        print_json(&compaction_event_payload(9_000, 3_000, "provider_overflow")),
        r#"{"afterChars":3000,"beforeChars":9000,"reason":"provider_overflow"}"#
    );
}

#[test]
fn the_proposed_goal_is_the_last_user_message() {
    let messages = vec![
        plain_message(ModelRole::System, "rules".into()),
        plain_message(ModelRole::User, "first".into()),
        plain_message(ModelRole::Assistant, "ok".into()),
        plain_message(ModelRole::User, "second".into()),
        plain_message(ModelRole::Tool, "result".into()),
    ];
    assert_eq!(proposed_goal(&messages), "second");
    assert_eq!(proposed_goal(&vec![plain_message(ModelRole::System, "rules".into())]), "");
}

#[test]
fn runs_without_text_input_fail_before_cancellation_is_considered() {
    assert_eq!(run_preflight(false, true), RunPreflight::TextInputUnsupported);
    assert_eq!(run_preflight(true, true), RunPreflight::Cancelled);
    assert_eq!(run_preflight(true, false), RunPreflight::Start);
}

#[test]
fn request_context_names_the_run_and_its_policies() {
    assert_eq!(
        run_request_context("run-1", "None", "WorkspaceWrite", "OnRequest", "None", "None", None),
        "run_id=run-1; execution_target=None; permission_profile=WorkspaceWrite; approval_policy=OnRequest; accepted_plan_id=None; accepted_plan_revision=None; host_context=not supplied."
    );
    assert!(run_request_context("r", "t", "p", "a", "i", "v", Some("desktop")).ends_with("host_context=desktop."));
}

#[test]
fn final_items_are_not_projected_twice() {
    let last = Some(OpenItem { item_id: "item-1".into(), text: "done".into() });
    assert_eq!(final_item(false, "done", &last), FinalItem::AlreadyProjected);
    assert_eq!(final_item(false, "other", &last), FinalItem::Assistant);
    assert_eq!(final_item(false, "done", &None), FinalItem::Assistant);
    assert_eq!(final_item(true, "done", &last), FinalItem::Plan);
    assert_eq!(unfinished_item_status(true), ItemStatus::Interrupted);
    assert_eq!(unfinished_item_status(false), ItemStatus::Failed);
    assert!(passes_through_cancelling(false, true));
    assert!(!passes_through_cancelling(true, true));
    assert!(!passes_through_cancelling(false, false));
}

#[test]
fn authority_blockers_fail_the_run_with_a_stable_code_and_event() {
    let failure = run_failure(Some("authority_test"));
    assert_eq!(failure.failure_code, "authority_needs_attention");
    assert_eq!(failure.item_code, "agent_authority_needs_attention");
    let event = failure.attention.expect("event");
    assert_eq!(event.event, "agent.authority_needs_attention");
    assert_eq!(event.code, "authority_test");
    let other = run_failure(None);
    assert_eq!(other.failure_code, "agent_runtime_failed");
    assert_eq!(other.item_code, "agent_runtime_failed");
    assert!(other.attention.is_none());
}
