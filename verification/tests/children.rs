use hachimi_agent::children::{
    child_tool_kinds, execution_step, fails_child_run, launch_check, lease_claim_failure, recovery_grant_check,
    recovery_grant_source, ExecutionEvent, ExecutionStep, LEASE_LOST_CODE, RECOVERY_PRINCIPAL, agent_tool_descriptor, cancel_steps, check_task_owner, collect_summaries, recovery_policy, select_requested,
    task_schema, wait_is_over, wait_timeout_ms, AgentTaskStatus, AgentToolKind, ChildTask, ToolRecoveryPolicy,
    AGENT_SPAWN_TOOL, AGENT_WAIT_TOOL,
};
use hachimi_agent::json::{parse_json, print_json};
use hachimi_agent::security::ToolEffect;

fn task(id: &str, status: AgentTaskStatus, summary: Option<&str>) -> ChildTask {
    ChildTask { id: id.into(), parent_run_id: "parent".into(), status, result_summary: summary.map(str::to_owned) }
}

#[test]
fn wait_and_collect_are_parallel_read_only_tools() {
    for kind in [AgentToolKind::Wait, AgentToolKind::Collect] {
        let d = agent_tool_descriptor(kind);
        assert_eq!(d.effect, ToolEffect::ReadOnly);
        assert!(d.parallel_safe);
        assert_eq!(recovery_policy(kind), ToolRecoveryPolicy::ReadOnlyReplayable);
    }
    for kind in [AgentToolKind::Spawn, AgentToolKind::Send, AgentToolKind::Cancel] {
        let d = agent_tool_descriptor(kind);
        assert_eq!(d.effect, ToolEffect::ExternalSideEffect);
        assert!(!d.parallel_safe);
        assert_eq!(d.required_scopes, vec!["agent.run".to_string()]);
        assert_eq!(recovery_policy(kind), ToolRecoveryPolicy::IdempotentWithReceipt);
    }
    assert_eq!(agent_tool_descriptor(AgentToolKind::Spawn).name, AGENT_SPAWN_TOOL);
    assert_eq!(agent_tool_descriptor(AgentToolKind::Wait).name, AGENT_WAIT_TOOL);
}

#[test]
fn task_schemas_name_the_task_and_optional_content() {
    assert_eq!(
        print_json(&task_schema(false)),
        r#"{"additionalProperties":false,"properties":{"taskId":{"minLength":1,"type":"string"}},"required":["taskId"],"type":"object"}"#
    );
    assert_eq!(
        print_json(&task_schema(true)),
        r#"{"additionalProperties":false,"properties":{"content":{"maxLength":32000,"minLength":1,"type":"string"},"taskId":{"minLength":1,"type":"string"}},"required":["taskId","content"],"type":"object"}"#
    );
    assert_eq!(
        print_json(&agent_tool_descriptor(AgentToolKind::Wait).input_schema),
        r#"{"additionalProperties":false,"properties":{"taskIds":{"items":{"type":"string"},"type":"array"},"timeoutMs":{"maximum":60000,"minimum":0,"type":"integer"}},"type":"object"}"#
    );
    assert_eq!(
        print_json(&agent_tool_descriptor(AgentToolKind::Collect).input_schema),
        r#"{"additionalProperties":false,"properties":{},"type":"object"}"#
    );
    let spawn = print_json(&agent_tool_descriptor(AgentToolKind::Spawn).input_schema);
    assert!(spawn.contains(r#""permissionProfile":{"enum":["read_only","inherit"],"type":"string"}"#));
    assert!(spawn.contains(r#""required":["title","prompt"]"#));
}

#[test]
fn wait_timeout_defaults_to_thirty_seconds_and_caps_at_a_minute() {
    assert_eq!(wait_timeout_ms(&parse_json("{}").unwrap()), 30_000);
    assert_eq!(wait_timeout_ms(&parse_json(r#"{"timeoutMs":1500}"#).unwrap()), 1_500);
    assert_eq!(wait_timeout_ms(&parse_json(r#"{"timeoutMs":600000}"#).unwrap()), 60_000);
    assert_eq!(wait_timeout_ms(&parse_json(r#"{"timeoutMs":-5}"#).unwrap()), 30_000);
    assert_eq!(wait_timeout_ms(&parse_json(r#"{"timeoutMs":"10"}"#).unwrap()), 30_000);
}

#[test]
fn waits_watch_requested_tasks_until_settled_or_deadline() {
    let tasks = vec![
        task("a", AgentTaskStatus::Running, None),
        task("b", AgentTaskStatus::Succeeded, None),
        task("c", AgentTaskStatus::NeedsAttention, None),
    ];
    let all = select_requested(tasks, None);
    assert_eq!(all.len(), 3);
    assert!(!wait_is_over(&all, false));
    assert!(wait_is_over(&all, true));
    let requested = vec!["c".to_string(), "b".to_string(), "missing".to_string()];
    let picked = select_requested(all, Some(&requested));
    assert_eq!(picked.iter().map(|t| t.id.as_str()).collect::<Vec<_>>(), vec!["b", "c"]);
    assert!(wait_is_over(&picked, false));
}

#[test]
fn collection_lists_each_task_with_status_and_summary() {
    let tasks = vec![task("t1", AgentTaskStatus::Succeeded, Some("done")), task("t2", AgentTaskStatus::Queued, None)];
    assert_eq!(collect_summaries(&tasks), "t1: Succeeded: done\nt2: Queued: no summary");
    assert_eq!(collect_summaries(&Vec::new()), "");
}

#[test]
fn only_the_parent_run_may_name_its_child_task() {
    let t = task("t1", AgentTaskStatus::Running, None);
    assert!(check_task_owner(&t, "parent").is_ok());
    let err = check_task_owner(&t, "other").unwrap_err();
    assert_eq!(err.message(), "tool execution failed: child Task does not belong to this parent Run");
}

#[test]
fn cancellation_leaves_finished_runs_and_tasks_alone() {
    let live = cancel_steps(false, true, AgentTaskStatus::Running);
    assert!(live.stop_execution && live.cancel_run && live.cancel_task);
    let stuck = cancel_steps(false, false, AgentTaskStatus::Queued);
    assert!(stuck.stop_execution && !stuck.cancel_run && stuck.cancel_task);
    let done = cancel_steps(true, true, AgentTaskStatus::Failed);
    assert!(!done.stop_execution && !done.cancel_run && !done.cancel_task);
}

#[test]
fn children_at_the_maximum_depth_get_no_agent_tools() {
    assert_eq!(child_tool_kinds(0).len(), 5);
    assert_eq!(child_tool_kinds(2)[0], AgentToolKind::Spawn);
    assert_eq!(child_tool_kinds(2)[4], AgentToolKind::Collect);
    assert!(child_tool_kinds(3).is_empty());
    assert!(child_tool_kinds(9).is_empty());
}

#[test]
fn a_lost_lease_cancels_the_child_and_fails_the_task() {
    assert_eq!(execution_step(ExecutionEvent::Heartbeat { renewed: true }), ExecutionStep::Continue);
    assert_eq!(
        execution_step(ExecutionEvent::Heartbeat { renewed: false }),
        ExecutionStep::CancelChild { lease_lost: true }
    );
    assert_eq!(execution_step(ExecutionEvent::Cancelled), ExecutionStep::CancelChild { lease_lost: false });
    assert_eq!(execution_step(ExecutionEvent::Finished), ExecutionStep::Done);
    assert_eq!(LEASE_LOST_CODE, "agent_task_lease_lost");
    assert_eq!(launch_check(false, Some("t")).unwrap_err(), "multi_agent_executor_not_ready");
    assert_eq!(launch_check(true, None).unwrap_err(), "multi_agent_task_identity_missing");
    assert_eq!(launch_check(true, Some("t")).unwrap(), "t");
    assert_eq!(lease_claim_failure("busy"), "agent_task_lease_claim_failed:busy");
}

#[test]
fn recovered_children_reuse_only_their_own_unexpired_grants() {
    assert!(recovery_grant_check("s", Some("r"), None, "s", "r", 10).is_ok());
    assert!(recovery_grant_check("s", Some("r"), Some(11), "s", "r", 10).is_ok());
    assert_eq!(recovery_grant_check("s", Some("r"), Some(10), "s", "r", 10).unwrap_err(), "agent_task_recovery_grant_invalid");
    assert!(recovery_grant_check("other", Some("r"), None, "s", "r", 10).is_err());
    assert!(recovery_grant_check("s", None, None, "s", "r", 10).is_err());
    assert!(recovery_grant_check("s", Some("x"), None, "s", "r", 10).is_err());
    assert_eq!(recovery_grant_source("task-7"), "multi_agent_recovery:task-7");
    assert_eq!(RECOVERY_PRINCIPAL, "system:multi-agent-recovery");
    assert!(fails_child_run(false, true));
    assert!(!fails_child_run(true, true));
    assert!(!fails_child_run(false, false));
}
