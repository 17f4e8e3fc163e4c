use hachimi_agent::authorization::{
    approval_check, authority_rejection, duplicate_side_effect_result, grant_admission, is_side_effect,
    replay_conflicts, sandbox_admission, screen_tool_call, screening_audit, side_effect_key, Screening, ToolOutcome,
};
use hachimi_agent::json::{parse_json, print_json};
use hachimi_agent::security::{AuthorityDecision, AuthorityMode, SideEffectExecutionStatus, ToolEffect};
use hachimi_agent::tools::{ToolCall, ToolResultStatus};

fn allow() -> AuthorityDecision {
    AuthorityDecision::Allow { effective_effect: ToolEffect::WorkspaceWrite }
}

fn stopped(screening: Screening) -> ToolOutcome {
    match screening {
        Screening::Stop(outcome) => outcome,
        other => panic!("unexpected screening {other:?}"),
    }
}

#[test]
fn screening_runs_in_order() {
    let list = vec!["workspace_write_file".to_owned()];
    let outcome = stopped(screen_tool_call(true, 1, 2, Some(&list), "x", false, &allow(), AuthorityMode::Interactive));
    assert!(matches!(outcome, ToolOutcome::Aborted(m) if m == "tool call was cancelled before authorization"));
    let outcome = stopped(screen_tool_call(false, 1, 2, Some(&list), "x", false, &allow(), AuthorityMode::Interactive));
    assert!(matches!(outcome, ToolOutcome::Rejected(m) if m == "tool call belongs to a stale run generation"));
    let outcome = stopped(screen_tool_call(false, 2, 2, Some(&list), "x", true, &allow(), AuthorityMode::Unattended));
    assert!(matches!(outcome, ToolOutcome::NeedsAttention { code, .. } if code == "run_allowlist_denied"));
    let outcome = stopped(screen_tool_call(false, 2, 2, None, "x", false, &allow(), AuthorityMode::Interactive));
    assert!(matches!(outcome, ToolOutcome::Failed(m) if m == "tool x has no valid required scope"));
    let deny = AuthorityDecision::Deny { code: "workspace_path_outside_root".into() };
    let outcome = stopped(screen_tool_call(false, 2, 2, None, "x", true, &deny, AuthorityMode::Interactive));
    assert!(matches!(outcome, ToolOutcome::Rejected(m)
        if m == "tool call exceeds its structured authority: workspace_path_outside_root"));
}

#[test]
fn screened_calls_keep_their_effect_and_forced_approval() {
    let list = vec!["workspace_write_file".to_owned()];
    match screen_tool_call(false, 3, 3, Some(&list), "workspace_write_file", true, &allow(), AuthorityMode::Interactive) {
        Screening::Authorized { effect, forced_approval } => {
            assert_eq!(effect, ToolEffect::WorkspaceWrite);
            assert_eq!(forced_approval, None);
        }
        other => panic!("unexpected screening {other:?}"),
    }
    let ask = AuthorityDecision::RequireApproval {
        effective_effect: ToolEffect::ExternalSideEffect,
        code: "mcp_tool_requires_approval".into(),
    };
    match screen_tool_call(false, 3, 3, None, "mcp", true, &ask, AuthorityMode::Interactive) {
        Screening::Authorized { effect, forced_approval } => {
            assert_eq!(effect, ToolEffect::ExternalSideEffect);
            assert_eq!(forced_approval.as_deref(), Some("mcp_tool_requires_approval"));
        }
        other => panic!("unexpected screening {other:?}"),
    }
}

#[test]
fn unattended_denials_need_attention_and_interactive_ones_are_rejected() {
    let unattended = authority_rejection(AuthorityMode::Unattended, "workspace_path_requires_approval", "m".into());
    assert!(matches!(unattended, ToolOutcome::NeedsAttention { code, message }
        if code == "workspace_path_requires_approval" && message == "m"));
    assert!(matches!(authority_rejection(AuthorityMode::Interactive, "c", "m".into()), ToolOutcome::Rejected(m) if m == "m"));
    assert!(grant_admission(AuthorityMode::Interactive, true).is_none());
    assert!(matches!(grant_admission(AuthorityMode::Unattended, false),
        Some(ToolOutcome::NeedsAttention { code, .. }) if code == "capability_grant_denied"));
}

#[test]
fn writes_fail_closed_without_an_enforcing_sandbox() {
    assert!(matches!(sandbox_admission(false, AuthorityMode::Interactive, false, false),
        Some(ToolOutcome::Rejected(m)) if m == "tool side effect denied because no OS-enforced sandbox is active"));
    assert!(matches!(sandbox_admission(false, AuthorityMode::Unattended, false, false),
        Some(ToolOutcome::NeedsAttention { code, .. }) if code == "sandbox_unavailable"));
    assert!(sandbox_admission(false, AuthorityMode::Interactive, true, false).is_none());
    assert!(sandbox_admission(false, AuthorityMode::Interactive, false, true).is_none());
    assert!(matches!(sandbox_admission(true, AuthorityMode::Interactive, true, true), Some(ToolOutcome::Aborted(_))));
}

#[test]
fn approvals_bind_parameters_and_generation() {
    assert!(approval_check(true, "h", "h", 2, 2).is_none());
    assert!(matches!(approval_check(true, "h", "other", 2, 2),
        Some(ToolOutcome::Rejected(m)) if m == "tool call was not approved for these exact parameters"));
    assert!(approval_check(true, "h", "h", 1, 2).is_some());
    assert!(approval_check(false, "h", "h", 2, 2).is_some());
}

#[test]
fn side_effects_are_keyed_and_replayed_only_when_finished() {
    assert!(is_side_effect(ToolEffect::Process));
    assert!(!is_side_effect(ToolEffect::BrowserObserve));
    assert_eq!(side_effect_key(4, "call-1", None), "tool:4:call-1");
    assert_eq!(side_effect_key(4, "call-1", Some("recovery".into())), "recovery");
    assert!(replay_conflicts("a", "h", "b", "h"));
    assert!(replay_conflicts("a", "h", "a", "g"));
    assert!(!replay_conflicts("a", "h", "a", "h"));
    let call = ToolCall { id: "call-1".into(), name: "workspace_write_file".into(), arguments: parse_json("{}").unwrap() };
    let persisted = parse_json(r#"{"modelContent":"written","structuredContent":{"bytes":3}}"#).unwrap();
    match duplicate_side_effect_result(&call, SideEffectExecutionStatus::Succeeded, Some(persisted)) {
        ToolOutcome::Completed(result) => {
            assert_eq!(result.status, ToolResultStatus::Succeeded);
            assert_eq!(result.model_content, "written");
            assert_eq!(print_json(&result.structured_content), r#"{"bytes":3}"#);
        }
        other => panic!("unexpected outcome {other:?}"),
    }
    match duplicate_side_effect_result(&call, SideEffectExecutionStatus::Failed, None) {
        ToolOutcome::Completed(result) => {
            assert_eq!(result.status, ToolResultStatus::Failed);
            assert_eq!(result.model_content, "side effect already completed");
            assert_eq!(print_json(&result.structured_content), r#"{"replayed":true}"#);
        }
        other => panic!("unexpected outcome {other:?}"),
    }
    assert!(matches!(duplicate_side_effect_result(&call, SideEffectExecutionStatus::Indeterminate, None),
        ToolOutcome::Rejected(m) if m == "side effect was not replayed because its durable state is Indeterminate"));
}

#[test]
fn approval_wait_moves_a_running_run_and_back() {
    let enter = hachimi_agent::authorization::enter_approval_wait;
    let leave = hachimi_agent::authorization::leave_approval_wait;
    let running = hachimi_agent::authorization::RunStatus::Running;
    let waiting = hachimi_agent::authorization::RunStatus::WaitingApproval;
    assert_eq!(enter(Some((2, running)), "run-1", 2).unwrap(), Some(waiting));
    assert_eq!(enter(Some((2, waiting)), "run-1", 2).unwrap(), None);
    assert_eq!(leave(Some((2, waiting)), "run-1", 2).unwrap(), Some(running));
    assert_eq!(leave(Some((2, running)), "run-1", 2).unwrap(), None);
    assert_eq!(
        enter(None, "run-1", 2).unwrap_err().message(),
        "tool execution failed: run run-1 disappeared before approval"
    );
    assert_eq!(
        enter(Some((3, running)), "run-1", 2).unwrap_err().message(),
        "tool execution failed: run generation changed before approval"
    );
    assert_eq!(
        enter(Some((2, hachimi_agent::authorization::RunStatus::Cancelling)), "run-1", 2).unwrap_err().message(),
        "tool execution failed: run cannot wait for approval while it is Cancelling"
    );
    assert_eq!(
        leave(Some((1, waiting)), "run-1", 2).unwrap_err().message(),
        "tool execution failed: run generation changed while approval was pending"
    );
    assert_eq!(
        hachimi_agent::authorization::approval_state_failure("locked").message(),
        "tool execution failed: approval run state failed: locked"
    );
}

#[test]
fn screening_records_stale_generations_and_denials() {
    let list = vec!["workspace_write_file".to_owned()];
    assert_eq!(screening_audit(true, 1, 2, Some(&list), "x", true, &allow()), None);
    assert_eq!(screening_audit(false, 1, 2, Some(&list), "x", true, &allow()).as_deref(), Some("stale_generation"));
    assert_eq!(screening_audit(false, 2, 2, Some(&list), "x", true, &allow()).as_deref(), Some("run_allowlist_denied"));
    let deny = AuthorityDecision::Deny { code: "workspace_path_outside_root".into() };
    assert_eq!(
        screening_audit(false, 2, 2, Some(&list), "workspace_write_file", true, &deny).as_deref(),
        Some("structured_authority_denied")
    );
    assert_eq!(screening_audit(false, 2, 2, None, "workspace_write_file", true, &allow()), None);
}
