//! The path of an authorized tool call from screening to dispatch, as a step function from
//! state and event to next state and action. The caller performs each action (a grant check,
//! a store lookup, an approval request, a claim) and hands its result back as the next event;
//! the tool itself runs only when the action is `Dispatch`.

use vstd::prelude::*;

use crate::authorization::{
    approval_check, authority_refusal, authority_rejection, duplicate_side_effect_result, grant_admission, is_side_effect,
    outcome_view, replay_conflicts, sandbox_admission, side_effect_key, OutcomeView, Screening, ToolOutcome,
};
use crate::json::JsonValue;
use crate::security::{observes_only, recovered_side_effect_result, AuthorityMode, SideEffectExecutionStatus, ToolEffect};
use crate::text::{concat, push_decimal, push_str};
use crate::tools::ToolCall;

verus! {

/// Where a call stands on its way to the tool.
#[derive(PartialEq, Eq, Structural, Clone, Copy, Debug)]
pub enum AuthorizationPhase {
    /// Waiting for the screening of the call.
    Screening,
    /// Waiting for the capability grant check of the effective effect.
    Grant,
    /// Waiting for the recovery fence of a side effect.
    RecoveryFence,
    /// Waiting for the policy's decision.
    Policy,
    /// Waiting for a durable claim that may replay the call.
    Replay,
    /// Waiting for a session authority an interactive Run may reuse.
    SessionAuthority,
    /// Waiting for the resolution of an approval request.
    Approval,
    /// Waiting for the sandbox admission.
    Sandbox,
    /// Waiting for the side-effect claim.
    Claim,
    /// Waiting for the claim to be marked dispatched.
    MarkDispatch,
    /// The tool was dispatched; waiting for it to return.
    Dispatched,
    /// Nothing more happens.
    Done,
}

/// What the recovery fence says of a side effect.
#[derive(Debug)]
pub enum RecoveryFence {
    /// No earlier attempt.
    Fresh,
    /// Retry under the idempotency key of the earlier attempt.
    Retry(String),
    /// The earlier attempt finished; its persisted result stands for the call.
    ReuseCompleted { succeeded: bool, persisted_result: Option<JsonValue> },
}

/// The policy's decision on the call.
#[derive(Debug)]
pub enum PolicyVerdict {
    Allow,
    RequireApproval(String),
    Deny(String),
}

/// A durable side-effect claim found under the call's idempotency key.
#[derive(Debug)]
pub struct DurableClaim {
    pub tool_call_id: String,
    pub parameter_hash: String,
    pub status: SideEffectExecutionStatus,
    pub persisted_result: Option<JsonValue>,
}

/// The result of the last action, handed back by the caller.
#[derive(Debug)]
pub enum AuthorizationEvent {
    Screened(Screening),
    GrantChecked { allows: bool },
    Fence(RecoveryFence),
    PolicyEvaluated(PolicyVerdict),
    ReplayClaim(Option<DurableClaim>),
    SessionAuthority(Option<String>),
    ApprovalResolved { approved: bool, parameter_hash: String, run_generation: u64, approval_id: String },
    SandboxChecked { cancelled: bool, permits: bool },
    ClaimRecorded { created: bool, status: SideEffectExecutionStatus, persisted_result: Option<JsonValue>, cancelled: bool },
    DispatchMarked(Result<(), String>),
    /// The tool returned; `succeeded` says whether it returned a result rather than an error.
    ToolReturned { cancelled: bool, succeeded: bool },
}

/// What the caller does next.
#[derive(Debug)]
pub enum AuthorizationAction {
    CheckGrant(ToolEffect),
    LookupRecoveryFence,
    EvaluatePolicy(ToolEffect),
    /// Look up a durable claim under this idempotency key.
    LookupReplayClaim(String),
    LookupSessionAuthority,
    /// Ask for an approval (entering the approval wait around it), for this reason.
    RequestApproval(String),
    CheckSandbox(ToolEffect),
    ClaimSideEffect { idempotency_key: String, approval_id: Option<String> },
    MarkDispatched,
    /// Run the tool.
    Dispatch,
    /// End the call with this outcome.
    Stop(ToolOutcome),
    /// Cancel the side-effect claim, then end the call with this outcome.
    CancelClaim(ToolOutcome),
    /// The tool's result arrived after cancellation: record the side effect as indeterminate
    /// (when one was claimed) and end the call with this outcome.
    DiscardLate(ToolOutcome),
    /// The tool's result stands.
    Complete,
}

/// A call on its way to the tool. The flags record which checks it has passed.
#[derive(Debug)]
pub struct AuthorizationState {
    pub phase: AuthorizationPhase,
    pub mode: AuthorityMode,
    pub full_access: bool,
    pub has_store: bool,
    pub call: ToolCall,
    pub run_generation: u64,
    pub parameter_hash: String,
    pub effect: ToolEffect,
    pub pending_approval: Option<String>,
    pub forced_approval: Option<String>,
    pub recovery_key: Option<String>,
    pub approval_id: Option<String>,
    /// Screening authorized the call.
    pub screened: bool,
    /// The capability grant allows the effective effect.
    pub grant_allowed: bool,
    /// The policy allowed the call, or a required approval was reused or given for these
    /// exact parameters in this Run generation.
    pub policy_cleared: bool,
    /// The call was not cancelled before sandbox admission, and the sandbox permits the effect
    /// or the Run has full access.
    pub sandbox_admitted: bool,
    /// A side effect's claim was created and not cancelled.
    pub claim_clear: bool,
    /// A side effect's claim was marked dispatched.
    pub host_claimed: bool,
}

/// The calls whose side effect is claimed in the store before dispatch.
pub open spec fn claims(s: AuthorizationState) -> bool {
    !observes_only(s.effect) && s.has_store
}

/// Everything that must hold before the tool may run.
pub open spec fn cleared(s: AuthorizationState) -> bool {
    &&& s.screened
    &&& s.grant_allowed
    &&& s.policy_cleared
    &&& s.sandbox_admitted
    &&& claims(s) ==> s.claim_clear && s.host_claimed
}

/// The flags match the phase.
pub open spec fn consistent(s: AuthorizationState) -> bool {
    let p = s.phase;
    &&& (p == AuthorizationPhase::Screening ==> !s.screened && !s.grant_allowed && !s.policy_cleared && !s.sandbox_admitted
        && !s.claim_clear && !s.host_claimed)
    &&& (p == AuthorizationPhase::Grant ==> s.screened && !s.grant_allowed && !s.policy_cleared && !s.sandbox_admitted
        && !s.claim_clear && !s.host_claimed)
    &&& ((p == AuthorizationPhase::RecoveryFence || p == AuthorizationPhase::Policy || p == AuthorizationPhase::Replay
        || p == AuthorizationPhase::SessionAuthority || p == AuthorizationPhase::Approval) ==> s.screened && s.grant_allowed
        && !s.policy_cleared && !s.sandbox_admitted && !s.claim_clear && !s.host_claimed)
    &&& (p == AuthorizationPhase::SessionAuthority ==> s.mode == AuthorityMode::Interactive && s.has_store)
    &&& (p == AuthorizationPhase::Replay ==> s.has_store)
    &&& ((p == AuthorizationPhase::Replay || p == AuthorizationPhase::SessionAuthority || p == AuthorizationPhase::Approval)
        ==> s.pending_approval is Some)
    &&& (p == AuthorizationPhase::Sandbox ==> s.screened && s.grant_allowed && s.policy_cleared && !s.sandbox_admitted
        && !s.claim_clear && !s.host_claimed)
    &&& (p == AuthorizationPhase::Claim ==> s.screened && s.grant_allowed && s.policy_cleared && s.sandbox_admitted
        && claims(s) && !s.claim_clear && !s.host_claimed)
    &&& (p == AuthorizationPhase::MarkDispatch ==> s.screened && s.grant_allowed && s.policy_cleared && s.sandbox_admitted
        && claims(s) && s.claim_clear && !s.host_claimed)
    &&& (p == AuthorizationPhase::Dispatched ==> cleared(s))
}

/// The event each phase waits for.
pub open spec fn expects(phase: AuthorizationPhase, e: AuthorizationEvent) -> bool {
    match e {
        AuthorizationEvent::Screened(_) => phase == AuthorizationPhase::Screening,
        AuthorizationEvent::GrantChecked { .. } => phase == AuthorizationPhase::Grant,
        AuthorizationEvent::Fence(_) => phase == AuthorizationPhase::RecoveryFence,
        AuthorizationEvent::PolicyEvaluated(_) => phase == AuthorizationPhase::Policy,
        AuthorizationEvent::ReplayClaim(_) => phase == AuthorizationPhase::Replay,
        AuthorizationEvent::SessionAuthority(_) => phase == AuthorizationPhase::SessionAuthority,
        AuthorizationEvent::ApprovalResolved { .. } => phase == AuthorizationPhase::Approval,
        AuthorizationEvent::SandboxChecked { .. } => phase == AuthorizationPhase::Sandbox,
        AuthorizationEvent::ClaimRecorded { .. } => phase == AuthorizationPhase::Claim,
        AuthorizationEvent::DispatchMarked(_) => phase == AuthorizationPhase::MarkDispatch,
        AuthorizationEvent::ToolReturned { .. } => phase == AuthorizationPhase::Dispatched,
    }
}

/// The decision an authorized call's step records in the audit log, if any: a refused grant,
/// a reused recovery result, a policy denial, a reused durable result, a reused session
/// authority, an approval request, a denied approval, a sandbox that is not available, and the
/// tool's completion or failure. The screening's decisions are `screening_audit`'s.
pub open spec fn audit_of(s: AuthorizationState, e: AuthorizationEvent, a: AuthorizationAction) -> Option<Seq<char>> {
    if a is RequestApproval {
        Some("approval_requested"@)
    } else {
        match e {
            AuthorizationEvent::GrantChecked { allows } => if allows { None } else { Some("capability_grant_denied"@) },
            AuthorizationEvent::Fence(RecoveryFence::ReuseCompleted { .. }) => Some("recovery_result_reused"@),
            AuthorizationEvent::PolicyEvaluated(PolicyVerdict::Deny(_)) => Some("policy_denied"@),
            AuthorizationEvent::ReplayClaim(Some(claim)) => if claim.tool_call_id@ != s.call.id@ || claim.parameter_hash@
                != s.parameter_hash@ {
                None
            } else {
                Some("side_effect_result_reused"@)
            },
            AuthorizationEvent::SessionAuthority(Some(_)) => Some("session_authority_reused"@),
            AuthorizationEvent::ApprovalResolved { approved, parameter_hash, run_generation, .. } => if approved
                && parameter_hash@ == s.parameter_hash@ && run_generation == s.run_generation {
                None
            } else {
                Some("approval_denied"@)
            },
            AuthorizationEvent::SandboxChecked { cancelled, permits } => if !cancelled && !s.full_access && !permits {
                Some("sandbox_unavailable"@)
            } else {
                None
            },
            AuthorizationEvent::ToolReturned { cancelled, succeeded } => if cancelled {
                None
            } else if succeeded {
                Some("completed"@)
            } else {
                Some("failed"@)
            },
            _ => None,
        }
    }
}

fn some_text(t: &str) -> (out: Option<String>)
    ensures
        crate::file_diff::opt_text(out) == Some(t@),
{
    Some(t.to_owned())
}

/// The audit decision an event leads to, before knowing whether an approval is requested.
fn event_audit(s: &AuthorizationState, e: &AuthorizationEvent) -> (out: Option<String>)
    ensures
        crate::file_diff::opt_text(out) == audit_of(*s, *e, AuthorizationAction::Complete),
{
    match e {
        AuthorizationEvent::GrantChecked { allows } => if *allows { None } else { some_text("capability_grant_denied") },
        AuthorizationEvent::Fence(RecoveryFence::ReuseCompleted { .. }) => some_text("recovery_result_reused"),
        AuthorizationEvent::PolicyEvaluated(PolicyVerdict::Deny(_)) => some_text("policy_denied"),
        AuthorizationEvent::ReplayClaim(Some(claim)) => if replay_conflicts(
            claim.tool_call_id.as_str(),
            claim.parameter_hash.as_str(),
            s.call.id.as_str(),
            s.parameter_hash.as_str(),
        ) {
            None
        } else {
            some_text("side_effect_result_reused")
        },
        AuthorizationEvent::SessionAuthority(Some(_)) => some_text("session_authority_reused"),
        AuthorizationEvent::ApprovalResolved { approved, parameter_hash, run_generation, .. } => if *approved
            && crate::text::str_eq(parameter_hash.as_str(), s.parameter_hash.as_str()) && *run_generation
            == s.run_generation {
            None
        } else {
            some_text("approval_denied")
        },
        AuthorizationEvent::SandboxChecked { cancelled, permits } => if !*cancelled && !s.full_access && !*permits {
            some_text("sandbox_unavailable")
        } else {
            None
        },
        AuthorizationEvent::ToolReturned { cancelled, succeeded } => if *cancelled {
            None
        } else if *succeeded {
            some_text("completed")
        } else {
            some_text("failed")
        },
        _ => None,
    }
}

/// The idempotency key a replay claim is looked up under.
pub open spec fn replay_key(s: AuthorizationState) -> Seq<char> {
    "tool:"@ + crate::text::decimal(s.run_generation as nat) + ":"@ + s.call.id@
}

/// The part of a state that stays the same along the path.
pub open spec fn same_call(a: AuthorizationState, b: AuthorizationState) -> bool {
    &&& a.mode == b.mode
    &&& a.full_access == b.full_access
    &&& a.has_store == b.has_store
    &&& a.call == b.call
    &&& a.run_generation == b.run_generation
    &&& a.parameter_hash == b.parameter_hash
}

impl AuthorizationState {
    /// A call about to be screened. `parameter_hash` is the hash of its arguments.
    pub fn new(
        mode: AuthorityMode,
        full_access: bool,
        has_store: bool,
        call: ToolCall,
        run_generation: u64,
        parameter_hash: String,
    ) -> (s: Self)
        ensures
            s.phase == AuthorizationPhase::Screening,
            s.mode == mode,
            s.full_access == full_access,
            s.has_store == has_store,
            s.call == call,
            s.run_generation == run_generation,
            s.parameter_hash == parameter_hash,
            s.pending_approval is None && s.forced_approval is None && s.recovery_key is None && s.approval_id is None,
            consistent(s),
    {
        AuthorizationState {
            phase: AuthorizationPhase::Screening,
            mode,
            full_access,
            has_store,
            call,
            run_generation,
            parameter_hash,
            effect: ToolEffect::ReadOnly,
            pending_approval: None,
            forced_approval: None,
            recovery_key: None,
            approval_id: None,
            screened: false,
            grant_allowed: false,
            policy_cleared: false,
            sandbox_admitted: false,
            claim_clear: false,
            host_claimed: false,
        }
    }
}

fn replay_key_text(generation: u64, call_id: &str) -> (out: String)
    ensures
        out@ == "tool:"@ + crate::text::decimal(generation as nat) + ":"@ + call_id@,
{
    let mut out = "tool:".to_owned();
    push_decimal(&mut out, generation);
    push_str(&mut out, ":");
    push_str(&mut out, call_id);
    out
}

/// After the grant and the recovery fence: a required approval, or the policy's decision.
fn toward_policy(mut s: AuthorizationState) -> (out: (AuthorizationState, AuthorizationAction))
    requires
        s.screened && s.grant_allowed && !s.policy_cleared && !s.sandbox_admitted && !s.claim_clear && !s.host_claimed,
    ensures
        consistent(out.0),
        same_call(s, out.0),
        out.0.effect == s.effect && out.0.recovery_key == s.recovery_key && out.0.forced_approval == s.forced_approval,
        out.0.approval_id == s.approval_id,
        out.0.screened && out.0.grant_allowed && !out.0.policy_cleared && !out.0.sandbox_admitted,
        match s.forced_approval {
            Some(code) => toward_approval_spec(s, code@, out),
            None => out.0.phase == AuthorizationPhase::Policy && (out.1 matches AuthorizationAction::EvaluatePolicy(e)
                && e == s.effect),
        },
{
    match s.forced_approval.clone() {
        Some(code) => toward_approval(s, code),
        None => {
            s.phase = AuthorizationPhase::Policy;
            let effect = s.effect;
            (s, AuthorizationAction::EvaluatePolicy(effect))
        },
    }
}

/// Where a required approval leads: a durable claim may replay the call when the store is
/// there; otherwise an approval is requested.
pub open spec fn toward_approval_spec(s: AuthorizationState, code: Seq<char>, out: (AuthorizationState, AuthorizationAction)) -> bool {
    &&& out.0.pending_approval matches Some(c) && c@ == code
    &&& if s.has_store {
        out.0.phase == AuthorizationPhase::Replay && (out.1 matches AuthorizationAction::LookupReplayClaim(k) && k@
            == replay_key(s))
    } else {
        out.0.phase == AuthorizationPhase::Approval && (out.1 matches AuthorizationAction::RequestApproval(c) && c@
            == code)
    }
}

fn toward_approval(mut s: AuthorizationState, code: String) -> (out: (AuthorizationState, AuthorizationAction))
    requires
        s.screened && s.grant_allowed && !s.policy_cleared && !s.sandbox_admitted && !s.claim_clear && !s.host_claimed,
    ensures
        consistent(out.0),
        same_call(s, out.0),
        out.0.effect == s.effect && out.0.recovery_key == s.recovery_key && out.0.forced_approval == s.forced_approval,
        out.0.approval_id == s.approval_id,
        out.0.screened && out.0.grant_allowed && !out.0.policy_cleared && !out.0.sandbox_admitted,
        toward_approval_spec(s, code@, out),
{
    s.pending_approval = Some(code.clone());
    if s.has_store {
        let key = replay_key_text(s.run_generation, s.call.id.as_str());
        s.phase = AuthorizationPhase::Replay;
        (s, AuthorizationAction::LookupReplayClaim(key))
    } else {
        s.phase = AuthorizationPhase::Approval;
        (s, AuthorizationAction::RequestApproval(code))
    }
}

/// Past the policy: the sandbox is checked next.
fn toward_sandbox(mut s: AuthorizationState) -> (out: (AuthorizationState, AuthorizationAction))
    requires
        s.screened && s.grant_allowed && !s.sandbox_admitted && !s.claim_clear && !s.host_claimed,
    ensures
        consistent(out.0),
        same_call(s, out.0),
        out.0.effect == s.effect && out.0.recovery_key == s.recovery_key && out.0.approval_id == s.approval_id,
        out.0.phase == AuthorizationPhase::Sandbox,
        out.0.policy_cleared,
        out.1 matches AuthorizationAction::CheckSandbox(e) && e == s.effect,
{
    s.policy_cleared = true;
    s.phase = AuthorizationPhase::Sandbox;
    let effect = s.effect;
    (s, AuthorizationAction::CheckSandbox(effect))
}

/// One step of an authorized call. The tool runs only when the action is `Dispatch`, and then
/// only once: every check has passed by then, in this order — screening, the capability
/// grant, the recovery fence, the policy (or the approval it requires, reused or given for
/// these exact parameters in this Run generation), a second cancellation check with sandbox
/// admission, and for a side effect kept in the store a created, uncancelled claim marked
/// dispatched. Every refusal is the one the step gives below. The third part of the result is
/// the decision the step records in the audit log (`audit_of`).
pub fn authorization_step(s: AuthorizationState, e: AuthorizationEvent) -> (out: (
    AuthorizationState,
    AuthorizationAction,
    Option<String>,
))
    requires
        consistent(s),
        expects(s.phase, e),
    ensures
        consistent(out.0),
        same_call(s, out.0),
        // The dispatch law.
        out.1 is Dispatch ==> cleared(out.0) && out.0.phase == AuthorizationPhase::Dispatched && s.phase
            != AuthorizationPhase::Dispatched,
        // Flags are raised only by the events that pass their check.
        out.0.screened && !s.screened ==> e matches AuthorizationEvent::Screened(Screening::Authorized { .. }),
        out.0.grant_allowed && !s.grant_allowed ==> e matches AuthorizationEvent::GrantChecked { allows: true },
        out.0.policy_cleared && !s.policy_cleared ==> (e matches AuthorizationEvent::PolicyEvaluated(PolicyVerdict::Allow)
            || (e matches AuthorizationEvent::SessionAuthority(Some(_)) && s.mode == AuthorityMode::Interactive)
            || (e matches AuthorizationEvent::ApprovalResolved { approved, parameter_hash, run_generation, .. } && approved
            && parameter_hash@ == s.parameter_hash@ && run_generation == s.run_generation)),
        out.0.sandbox_admitted && !s.sandbox_admitted ==> (e matches AuthorizationEvent::SandboxChecked { cancelled, permits }
            && !cancelled && (s.full_access || permits)),
        out.0.claim_clear && !s.claim_clear ==> (e matches AuthorizationEvent::ClaimRecorded { created, cancelled, .. }
            && created && !cancelled),
        out.0.host_claimed && !s.host_claimed ==> e matches AuthorizationEvent::DispatchMarked(Ok(_)),
        // Each event, exactly.
        match e {
            AuthorizationEvent::Screened(Screening::Stop(o)) => out.0.phase == AuthorizationPhase::Done
                && (out.1 matches AuthorizationAction::Stop(p) && outcome_view(p) == outcome_view(o)),
            AuthorizationEvent::Screened(Screening::Authorized { effect, forced_approval }) => out.0.phase
                == AuthorizationPhase::Grant && out.0.effect == effect && out.0.forced_approval == forced_approval
                && (out.1 matches AuthorizationAction::CheckGrant(x) && x == effect),
            AuthorizationEvent::GrantChecked { allows } => if !allows {
                out.0.phase == AuthorizationPhase::Done && (out.1 matches AuthorizationAction::Stop(p) && outcome_view(p)
                    == authority_refusal(s.mode, "capability_grant_denied"@, "tool call is outside the active capability grant set"@))
            } else if claims(s) {
                out.0.phase == AuthorizationPhase::RecoveryFence && out.1 is LookupRecoveryFence
            } else {
                match s.forced_approval {
                    Some(code) => toward_approval_spec(s, code@, (out.0, out.1)),
                    None => out.0.phase == AuthorizationPhase::Policy && out.1 is EvaluatePolicy,
                }
            },
            AuthorizationEvent::Fence(RecoveryFence::ReuseCompleted { succeeded, persisted_result }) => out.0.phase
                == AuthorizationPhase::Done && (out.1 matches AuthorizationAction::Stop(ToolOutcome::Completed(r))
                && r.call_id@ == s.call.id@ && r.tool_name@ == s.call.name@ && (
                r.status,
                r.model_content@,
                crate::json::json_view(r.structured_content),
            ) == crate::security::recovered_result_view(succeeded, persisted_result)),
            AuthorizationEvent::Fence(f) => {
                &&& match f {
                    RecoveryFence::Retry(k) => out.0.recovery_key == Some(k),
                    _ => out.0.recovery_key == s.recovery_key,
                }
                &&& match s.forced_approval {
                    Some(code) => toward_approval_spec(s, code@, (out.0, out.1)),
                    None => out.0.phase == AuthorizationPhase::Policy && out.1 is EvaluatePolicy,
                }
            },
            AuthorizationEvent::PolicyEvaluated(v) => match v {
                PolicyVerdict::Deny(code) => out.0.phase == AuthorizationPhase::Done && (out.1 matches AuthorizationAction::Stop(
                    p,
                ) && outcome_view(p) == authority_refusal(s.mode, code@, "tool call denied by policy: "@ + code@)),
                PolicyVerdict::RequireApproval(code) => toward_approval_spec(s, code@, (out.0, out.1)),
                PolicyVerdict::Allow => out.0.phase == AuthorizationPhase::Sandbox && out.1 is CheckSandbox,
            },
            AuthorizationEvent::ReplayClaim(c) => match c {
                Some(claim) => out.0.phase == AuthorizationPhase::Done && if claim.tool_call_id@ != s.call.id@
                    || claim.parameter_hash@ != s.parameter_hash@ {
                    out.1 matches AuthorizationAction::Stop(p) && outcome_view(p) == OutcomeView::Failed(
                        "side-effect replay parameters conflict with the durable claim"@,
                    )
                } else {
                    out.1 matches AuthorizationAction::Stop(_)
                },
                None => if s.mode == AuthorityMode::Interactive {
                    out.0.phase == AuthorizationPhase::SessionAuthority && out.1 is LookupSessionAuthority
                } else {
                    out.0.phase == AuthorizationPhase::Approval && (out.1 matches AuthorizationAction::RequestApproval(c)
                        && Some(c) == s.pending_approval)
                },
            },
            AuthorizationEvent::SessionAuthority(a) => match a {
                Some(id) => out.0.phase == AuthorizationPhase::Sandbox && out.0.approval_id == Some(id)
                    && out.1 is CheckSandbox,
                None => out.0.phase == AuthorizationPhase::Approval && (out.1 matches AuthorizationAction::RequestApproval(
                    c,
                ) && Some(c) == s.pending_approval),
            },
            AuthorizationEvent::ApprovalResolved { approved, parameter_hash, run_generation, approval_id } => if approved
                && parameter_hash@ == s.parameter_hash@ && run_generation == s.run_generation {
                out.0.phase == AuthorizationPhase::Sandbox && out.0.approval_id == Some(approval_id) && out.1 is CheckSandbox
            } else {
                out.0.phase == AuthorizationPhase::Done && (out.1 matches AuthorizationAction::Stop(p) && outcome_view(p)
                    == OutcomeView::Rejected("tool call was not approved for these exact parameters"@))
            },
            AuthorizationEvent::SandboxChecked { cancelled, permits } => if cancelled {
                out.0.phase == AuthorizationPhase::Done && (out.1 matches AuthorizationAction::Stop(p) && outcome_view(p)
                    == OutcomeView::Aborted("tool call was cancelled before sandbox admission"@))
            } else if !s.full_access && !permits {
                out.0.phase == AuthorizationPhase::Done && (out.1 matches AuthorizationAction::Stop(p) && outcome_view(p)
                    == authority_refusal(
                    s.mode,
                    "sandbox_unavailable"@,
                    "tool side effect denied because no OS-enforced sandbox is active"@,
                ))
            } else if claims(s) {
                out.0.phase == AuthorizationPhase::Claim && (out.1 matches AuthorizationAction::ClaimSideEffect {
                    idempotency_key,
                    approval_id,
                } && idempotency_key@ == match s.recovery_key {
                    Some(k) => k@,
                    None => replay_key(s),
                } && approval_id == s.approval_id)
            } else {
                out.0.phase == AuthorizationPhase::Dispatched && out.1 is Dispatch
            },
            AuthorizationEvent::ClaimRecorded { created, cancelled, .. } => if !created {
                out.0.phase == AuthorizationPhase::Done && out.1 is Stop
            } else if cancelled {
                out.0.phase == AuthorizationPhase::Done && (out.1 matches AuthorizationAction::CancelClaim(p) && outcome_view(
                    p,
                ) == OutcomeView::Aborted("tool call was cancelled before host dispatch"@))
            } else {
                out.0.phase == AuthorizationPhase::MarkDispatch && out.1 is MarkDispatched
            },
            AuthorizationEvent::DispatchMarked(r) => match r {
                Err(error) => out.0.phase == AuthorizationPhase::Done && (out.1 matches AuthorizationAction::CancelClaim(p)
                    && outcome_view(p) == OutcomeView::Aborted("host dispatch precondition failed: "@ + error@)),
                Ok(_) => out.0.phase == AuthorizationPhase::Dispatched && out.1 is Dispatch,
            },
            AuthorizationEvent::ToolReturned { cancelled, .. } => out.0.phase == AuthorizationPhase::Done && if cancelled {
                out.1 matches AuthorizationAction::DiscardLate(p) && outcome_view(p) == OutcomeView::Aborted(
                    "tool result arrived after cancellation and was discarded"@,
                )
            } else {
                out.1 is Complete
            },
        },
        // What the audit log records.
        crate::file_diff::opt_text(out.2) == audit_of(s, e, out.1),
{
    let pre = event_audit(&s, &e);
    let mut s = s;
    let (next, action) = match e {
        AuthorizationEvent::Screened(Screening::Stop(o)) => {
            s.phase = AuthorizationPhase::Done;
            (s, AuthorizationAction::Stop(o))
        },
        AuthorizationEvent::Screened(Screening::Authorized { effect, forced_approval }) => {
            s.screened = true;
            s.effect = effect;
            s.forced_approval = forced_approval;
            s.phase = AuthorizationPhase::Grant;
            (s, AuthorizationAction::CheckGrant(effect))
        },
        AuthorizationEvent::GrantChecked { allows } => {
            match grant_admission(s.mode, allows) {
                Some(o) => {
                    s.phase = AuthorizationPhase::Done;
                    (s, AuthorizationAction::Stop(o))
                },
                None => {
                    s.grant_allowed = true;
                    if is_side_effect(s.effect) && s.has_store {
                        s.phase = AuthorizationPhase::RecoveryFence;
                        (s, AuthorizationAction::LookupRecoveryFence)
                    } else {
                        toward_policy(s)
                    }
                },
            }
        },
        AuthorizationEvent::Fence(f) => {
            match f {
                RecoveryFence::ReuseCompleted { succeeded, persisted_result } => {
                    let r = recovered_side_effect_result(&s.call, succeeded, persisted_result);
                    s.phase = AuthorizationPhase::Done;
                    (s, AuthorizationAction::Stop(ToolOutcome::Completed(r)))
                },
                RecoveryFence::Retry(k) => {
                    s.recovery_key = Some(k);
                    toward_policy(s)
                },
                RecoveryFence::Fresh => toward_policy(s),
            }
        },
        AuthorizationEvent::PolicyEvaluated(v) => {
            match v {
                PolicyVerdict::Deny(code) => {
                    let message = concat("tool call denied by policy: ", code.as_str());
                    let o = authority_rejection(s.mode, code.as_str(), message);
                    s.phase = AuthorizationPhase::Done;
                    (s, AuthorizationAction::Stop(o))
                },
                PolicyVerdict::RequireApproval(code) => toward_approval(s, code),
                PolicyVerdict::Allow => toward_sandbox(s),
            }
        },
        AuthorizationEvent::ReplayClaim(c) => {
            match c {
                Some(claim) => {
                    s.phase = AuthorizationPhase::Done;
                    if replay_conflicts(
                        claim.tool_call_id.as_str(),
                        claim.parameter_hash.as_str(),
                        s.call.id.as_str(),
                        s.parameter_hash.as_str(),
                    ) {
                        (
                            s,
                            AuthorizationAction::Stop(
                                ToolOutcome::Failed("side-effect replay parameters conflict with the durable claim".to_owned()),
                            ),
                        )
                    } else {
                        let o = duplicate_side_effect_result(&s.call, claim.status, claim.persisted_result);
                        (s, AuthorizationAction::Stop(o))
                    }
                },
                None => {
                    let code = match &s.pending_approval {
                        Some(c) => c.clone(),
                        None => String::new(),
                    };
                    if s.mode == AuthorityMode::Interactive {
                        s.phase = AuthorizationPhase::SessionAuthority;
                        (s, AuthorizationAction::LookupSessionAuthority)
                    } else {
                        s.phase = AuthorizationPhase::Approval;
                        (s, AuthorizationAction::RequestApproval(code))
                    }
                },
            }
        },
        AuthorizationEvent::SessionAuthority(a) => {
            match a {
                Some(id) => {
                    s.approval_id = Some(id);
                    toward_sandbox(s)
                },
                None => {
                    let code = match &s.pending_approval {
                        Some(c) => c.clone(),
                        None => String::new(),
                    };
                    s.phase = AuthorizationPhase::Approval;
                    (s, AuthorizationAction::RequestApproval(code))
                },
            }
        },
        AuthorizationEvent::ApprovalResolved { approved, parameter_hash, run_generation, approval_id } => {
            match approval_check(approved, parameter_hash.as_str(), s.parameter_hash.as_str(), run_generation, s.run_generation) {
                Some(o) => {
                    s.phase = AuthorizationPhase::Done;
                    (s, AuthorizationAction::Stop(o))
                },
                None => {
                    s.approval_id = Some(approval_id);
                    toward_sandbox(s)
                },
            }
        },
        AuthorizationEvent::SandboxChecked { cancelled, permits } => {
            match sandbox_admission(cancelled, s.mode, s.full_access, permits) {
                Some(o) => {
                    s.phase = AuthorizationPhase::Done;
                    (s, AuthorizationAction::Stop(o))
                },
                None => {
                    s.sandbox_admitted = true;
                    if is_side_effect(s.effect) && s.has_store {
                        let key = side_effect_key(s.run_generation, s.call.id.as_str(), s.recovery_key.clone());
                        let approval_id = s.approval_id.clone();
                        s.phase = AuthorizationPhase::Claim;
                        (s, AuthorizationAction::ClaimSideEffect { idempotency_key: key, approval_id })
                    } else {
                        s.phase = AuthorizationPhase::Dispatched;
                        (s, AuthorizationAction::Dispatch)
                    }
                },
            }
        },
        AuthorizationEvent::ClaimRecorded { created, status, persisted_result, cancelled } => {
            s.phase = AuthorizationPhase::Done;
            if !created {
                let o = duplicate_side_effect_result(&s.call, status, persisted_result);
                (s, AuthorizationAction::Stop(o))
            } else if cancelled {
                (s, AuthorizationAction::CancelClaim(ToolOutcome::Aborted("tool call was cancelled before host dispatch".to_owned())))
            } else {
                s.claim_clear = true;
                s.phase = AuthorizationPhase::MarkDispatch;
                (s, AuthorizationAction::MarkDispatched)
            }
        },
        AuthorizationEvent::DispatchMarked(r) => {
            match r {
                Err(error) => {
                    s.phase = AuthorizationPhase::Done;
                    (
                        s,
                        AuthorizationAction::CancelClaim(
                            ToolOutcome::Aborted(concat("host dispatch precondition failed: ", error.as_str())),
                        ),
                    )
                },
                Ok(_) => {
                    s.host_claimed = true;
                    s.phase = AuthorizationPhase::Dispatched;
                    (s, AuthorizationAction::Dispatch)
                },
            }
        },
        AuthorizationEvent::ToolReturned { cancelled, .. } => {
            s.phase = AuthorizationPhase::Done;
            if cancelled {
                (
                    s,
                    AuthorizationAction::DiscardLate(
                        ToolOutcome::Aborted("tool result arrived after cancellation and was discarded".to_owned()),
                    ),
                )
            } else {
                (s, AuthorizationAction::Complete)
            }
        },
    };
    let audit = if let AuthorizationAction::RequestApproval(_) = &action {
        some_text("approval_requested")
    } else {
        pre
    };
    (next, action, audit)
}

/// A dispatched call has passed every check: screening, the capability grant, the policy or
/// its approval, the sandbox admission without cancellation, and for a side effect kept in the
/// store a created, uncancelled claim marked dispatched.
pub proof fn dispatched_calls_passed_every_check(s: AuthorizationState)
    requires
        consistent(s),
        s.phase == AuthorizationPhase::Dispatched,
    ensures
        s.screened,
        s.grant_allowed,
        s.policy_cleared,
        s.sandbox_admitted,
        claims(s) ==> s.claim_clear && s.host_claimed,
{
}

} // verus!
