use hachimi_agent::authorization::{Screening, ToolOutcome};
use hachimi_agent::dispatch::{
    authorization_step, AuthorizationAction, AuthorizationEvent, AuthorizationPhase, AuthorizationState, PolicyVerdict,
    RecoveryFence,
};
use hachimi_agent::json::parse_json;
use hachimi_agent::security::{AuthorityMode, ToolEffect};
use hachimi_agent::tools::ToolCall;

fn start(mode: AuthorityMode, full_access: bool, has_store: bool) -> AuthorizationState {
    let call = ToolCall { id: "call-1".into(), name: "workspace_write_file".into(), arguments: parse_json("{}").unwrap() };
    AuthorizationState::new(mode, full_access, has_store, call, 4, "hash-1".into())
}

fn screened(effect: ToolEffect) -> AuthorizationEvent {
    AuthorizationEvent::Screened(Screening::Authorized { effect, forced_approval: None })
}

fn step(s: AuthorizationState, e: AuthorizationEvent) -> (AuthorizationState, AuthorizationAction) {
    let (s, a, _) = authorization_step(s, e);
    (s, a)
}

#[test]
fn read_only_call_without_store_dispatches_after_policy_and_sandbox() {
    let (s, a) = step(start(AuthorityMode::Interactive, false, false), screened(ToolEffect::ReadOnly));
    assert!(matches!(a, AuthorizationAction::CheckGrant(ToolEffect::ReadOnly)));
    let (s, a) = step(s, AuthorizationEvent::GrantChecked { allows: true });
    assert!(matches!(a, AuthorizationAction::EvaluatePolicy(_)));
    let (s, a) = step(s, AuthorizationEvent::PolicyEvaluated(PolicyVerdict::Allow));
    assert!(matches!(a, AuthorizationAction::CheckSandbox(_)));
    let (s, a) = step(s, AuthorizationEvent::SandboxChecked { cancelled: false, permits: true });
    assert!(matches!(a, AuthorizationAction::Dispatch));
    assert_eq!(s.phase, AuthorizationPhase::Dispatched);
    let (s, a) = step(s, AuthorizationEvent::ToolReturned { cancelled: true, succeeded: true });
    assert!(matches!(a, AuthorizationAction::DiscardLate(ToolOutcome::Aborted(m)) if m == "tool result arrived after cancellation and was discarded"));
    assert_eq!(s.phase, AuthorizationPhase::Done);
}

#[test]
fn denials_never_dispatch() {
    let (s, _) = step(start(AuthorityMode::Unattended, false, false), screened(ToolEffect::WorkspaceWrite));
    let (_, a) = step(s, AuthorizationEvent::GrantChecked { allows: false });
    assert!(matches!(a, AuthorizationAction::Stop(ToolOutcome::NeedsAttention { code, .. }) if code == "capability_grant_denied"));

    let (s, _) = step(start(AuthorityMode::Interactive, false, false), screened(ToolEffect::WorkspaceWrite));
    let (s, _) = step(s, AuthorizationEvent::GrantChecked { allows: true });
    let (_, a) = step(s, AuthorizationEvent::PolicyEvaluated(PolicyVerdict::Deny("plan_mode_read_only".into())));
    assert!(matches!(a, AuthorizationAction::Stop(ToolOutcome::Rejected(m)) if m == "tool call denied by policy: plan_mode_read_only"));

    let (s, _) = step(start(AuthorityMode::Interactive, false, false), screened(ToolEffect::WorkspaceWrite));
    let (s, _) = step(s, AuthorizationEvent::GrantChecked { allows: true });
    let (s, a) = step(s, AuthorizationEvent::PolicyEvaluated(PolicyVerdict::RequireApproval("write".into())));
    assert!(matches!(a, AuthorizationAction::RequestApproval(ref c) if c == "write"));
    let (_, a) = step(
        s,
        AuthorizationEvent::ApprovalResolved { approved: true, parameter_hash: "other".into(), run_generation: 4, approval_id: "a".into() },
    );
    assert!(matches!(a, AuthorizationAction::Stop(ToolOutcome::Rejected(m)) if m == "tool call was not approved for these exact parameters"));

    let (s, _) = step(start(AuthorityMode::Unattended, false, false), screened(ToolEffect::WorkspaceWrite));
    let (s, _) = step(s, AuthorizationEvent::GrantChecked { allows: true });
    let (s, _) = step(s, AuthorizationEvent::PolicyEvaluated(PolicyVerdict::Allow));
    let (_, a) = step(s, AuthorizationEvent::SandboxChecked { cancelled: false, permits: false });
    assert!(matches!(a, AuthorizationAction::Stop(ToolOutcome::NeedsAttention { code, .. }) if code == "sandbox_unavailable"));
}

#[test]
fn side_effects_with_a_store_are_claimed_before_dispatch() {
    let (s, _) = step(start(AuthorityMode::Interactive, false, true), screened(ToolEffect::WorkspaceWrite));
    let (s, a) = step(s, AuthorizationEvent::GrantChecked { allows: true });
    assert!(matches!(a, AuthorizationAction::LookupRecoveryFence));
    let (s, a) = step(s, AuthorizationEvent::Fence(RecoveryFence::Retry("key-9".into())));
    assert!(matches!(a, AuthorizationAction::EvaluatePolicy(_)));
    let (s, a) = step(s, AuthorizationEvent::PolicyEvaluated(PolicyVerdict::RequireApproval("write".into())));
    assert!(matches!(a, AuthorizationAction::LookupReplayClaim(ref k) if k == "tool:4:call-1"));
    let (s, a) = step(s, AuthorizationEvent::ReplayClaim(None));
    assert!(matches!(a, AuthorizationAction::LookupSessionAuthority));
    let (s, a) = step(s, AuthorizationEvent::SessionAuthority(Some("approval-3".into())));
    assert!(matches!(a, AuthorizationAction::CheckSandbox(_)));
    let (s, a) = step(s, AuthorizationEvent::SandboxChecked { cancelled: false, permits: true });
    match a {
        AuthorizationAction::ClaimSideEffect { idempotency_key, approval_id } => {
            assert_eq!(idempotency_key, "key-9");
            assert_eq!(approval_id.as_deref(), Some("approval-3"));
        }
        other => panic!("unexpected {other:?}"),
    }
    let (s, a) = step(
        s,
        AuthorizationEvent::ClaimRecorded {
            created: true,
            status: hachimi_agent::security::SideEffectExecutionStatus::Claimed,
            persisted_result: None,
            cancelled: false,
        },
    );
    assert!(matches!(a, AuthorizationAction::MarkDispatched));
    let (_, a) = step(s, AuthorizationEvent::DispatchMarked(Err("stale run".into())));
    assert!(matches!(a, AuthorizationAction::CancelClaim(ToolOutcome::Aborted(m)) if m == "host dispatch precondition failed: stale run"));
}

#[test]
fn a_cancelled_claim_is_not_dispatched() {
    let (s, _) = step(start(AuthorityMode::Interactive, true, true), screened(ToolEffect::Process));
    let (s, _) = step(s, AuthorizationEvent::GrantChecked { allows: true });
    let (s, _) = step(s, AuthorizationEvent::Fence(RecoveryFence::Fresh));
    let (s, _) = step(s, AuthorizationEvent::PolicyEvaluated(PolicyVerdict::Allow));
    let (s, a) = step(s, AuthorizationEvent::SandboxChecked { cancelled: false, permits: false });
    assert!(matches!(a, AuthorizationAction::ClaimSideEffect { .. }));
    let (s, a) = step(
        s,
        AuthorizationEvent::ClaimRecorded {
            created: true,
            status: hachimi_agent::security::SideEffectExecutionStatus::Claimed,
            persisted_result: None,
            cancelled: true,
        },
    );
    assert!(matches!(a, AuthorizationAction::CancelClaim(ToolOutcome::Aborted(m)) if m == "tool call was cancelled before host dispatch"));
    assert_eq!(s.phase, AuthorizationPhase::Done);
}

#[test]
fn each_step_names_its_audit_decision() {
    let (s, _) = step(start(AuthorityMode::Interactive, false, false), screened(ToolEffect::WorkspaceWrite));
    let (s, _) = step(s, AuthorizationEvent::GrantChecked { allows: true });
    let (s, _) = step(s, AuthorizationEvent::PolicyEvaluated(PolicyVerdict::Allow));
    let (_, a, audit) = authorization_step(s, AuthorizationEvent::SandboxChecked { cancelled: false, permits: false });
    assert!(matches!(a, AuthorizationAction::Stop(ToolOutcome::Rejected(_))));
    assert_eq!(audit.as_deref(), Some("sandbox_unavailable"));

    let (s, _) = step(start(AuthorityMode::Interactive, false, false), screened(ToolEffect::WorkspaceWrite));
    let (_, _, audit) = authorization_step(s, AuthorizationEvent::GrantChecked { allows: false });
    assert_eq!(audit.as_deref(), Some("capability_grant_denied"));

    let (s, _) = step(start(AuthorityMode::Interactive, false, false), screened(ToolEffect::WorkspaceWrite));
    let (s, _) = step(s, AuthorizationEvent::GrantChecked { allows: true });
    let (s, a, audit) = authorization_step(s, AuthorizationEvent::PolicyEvaluated(PolicyVerdict::RequireApproval("w".into())));
    assert!(matches!(a, AuthorizationAction::RequestApproval(_)));
    assert_eq!(audit.as_deref(), Some("approval_requested"));
    let (_, _, audit) = authorization_step(
        s,
        AuthorizationEvent::ApprovalResolved { approved: false, parameter_hash: "hash-1".into(), run_generation: 4, approval_id: "a".into() },
    );
    assert_eq!(audit.as_deref(), Some("approval_denied"));

    let (s, _) = step(start(AuthorityMode::Interactive, false, false), screened(ToolEffect::ReadOnly));
    let (s, _) = step(s, AuthorizationEvent::GrantChecked { allows: true });
    let (_, _, audit) = authorization_step(s, AuthorizationEvent::PolicyEvaluated(PolicyVerdict::Deny("x".into())));
    assert_eq!(audit.as_deref(), Some("policy_denied"));

    let (s, _) = step(start(AuthorityMode::Interactive, false, false), screened(ToolEffect::ReadOnly));
    let (s, _) = step(s, AuthorizationEvent::GrantChecked { allows: true });
    let (s, _) = step(s, AuthorizationEvent::PolicyEvaluated(PolicyVerdict::Allow));
    let (s, _, audit) = authorization_step(s, AuthorizationEvent::SandboxChecked { cancelled: false, permits: true });
    assert_eq!(audit, None);
    let (_, a, audit) = authorization_step(s, AuthorizationEvent::ToolReturned { cancelled: false, succeeded: false });
    assert!(matches!(a, AuthorizationAction::Complete));
    assert_eq!(audit.as_deref(), Some("failed"));
}
