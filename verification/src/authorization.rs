//! The decisions an authorized tool call passes through before and after it is dispatched:
//! screening, the capability grant, approval, sandbox admission and replayed side effects.

use vstd::prelude::*;

use crate::json::{as_str, clone_json, field, get, get_str, json_view, JsonValue, JsonView};
use crate::security::{observes_only, AuthorityDecision, AuthorityMode, SideEffectExecutionStatus, ToolEffect};
use crate::text::{concat, push_decimal, push_str, str_eq};
use crate::delegation::{failed, failure_text};
use crate::tools::{ToolCall, ToolExecutionError, ToolResult, ToolResultStatus};

verus! {

/// How a tool call ends when it does not go on to the tool.
#[derive(Debug)]
pub enum ToolOutcome {
    /// The call was cancelled; the message says when.
    Aborted(String),
    /// The call was refused; the message is model-visible.
    Rejected(String),
    /// The call needs someone's attention: a stable code and a model-visible message.
    NeedsAttention { code: String, message: String },
    /// The call could not be judged at all.
    Failed(String),
    /// A result that stands for the call.
    Completed(ToolResult),
}

pub enum OutcomeView {
    Aborted(Seq<char>),
    Rejected(Seq<char>),
    NeedsAttention(Seq<char>, Seq<char>),
    Failed(Seq<char>),
    /// The call id, tool name, status, model content and structured content of the result.
    Completed(Seq<char>, Seq<char>, ToolResultStatus, Seq<char>, JsonView),
}

pub open spec fn outcome_view(o: ToolOutcome) -> OutcomeView {
    match o {
        ToolOutcome::Aborted(m) => OutcomeView::Aborted(m@),
        ToolOutcome::Rejected(m) => OutcomeView::Rejected(m@),
        ToolOutcome::NeedsAttention { code, message } => OutcomeView::NeedsAttention(code@, message@),
        ToolOutcome::Failed(m) => OutcomeView::Failed(m@),
        ToolOutcome::Completed(r) => OutcomeView::Completed(
            r.call_id@,
            r.tool_name@,
            r.status,
            r.model_content@,
            json_view(r.structured_content),
        ),
    }
}

/// A refusal on authority: an unattended Run needs attention with the code; an interactive
/// Run sees a plain rejection.
pub open spec fn authority_refusal(mode: AuthorityMode, code: Seq<char>, message: Seq<char>) -> OutcomeView {
    if mode == AuthorityMode::Unattended {
        OutcomeView::NeedsAttention(code, message)
    } else {
        OutcomeView::Rejected(message)
    }
}

pub fn authority_rejection(mode: AuthorityMode, code: &str, message: String) -> (out: ToolOutcome)
    ensures
        outcome_view(out) == authority_refusal(mode, code@, message@),
{
    match mode {
        AuthorityMode::Unattended => ToolOutcome::NeedsAttention { code: code.to_owned(), message },
        AuthorityMode::Interactive => ToolOutcome::Rejected(message),
    }
}

/// The result of screening a call.
#[derive(Debug)]
pub enum Screening {
    Stop(ToolOutcome),
    /// The call may go on with this effect, under an approval demanded by its structured
    /// authority when there is a code.
    Authorized { effect: ToolEffect, forced_approval: Option<String> },
}

pub open spec fn names_include(names: Seq<String>, name: Seq<char>) -> bool {
    exists|i: int| 0 <= i < names.len() && (#[trigger] names[i])@ == name
}

pub open spec fn allowlist_admits(allowlist: Option<Seq<String>>, name: Seq<char>) -> bool {
    match allowlist {
        Some(names) => names_include(names, name),
        None => true,
    }
}

/// What screening decides, in order: a cancelled call is aborted; a call of a stale Run
/// generation is rejected; a tool outside the Run's allowlist is refused on authority; a tool
/// without a valid required scope fails; a structured denial is refused on authority with its
/// code; otherwise the call is authorized with the structured decision's effect.
pub open spec fn screening_view(
    cancelled: bool,
    invocation_generation: u64,
    run_generation: u64,
    allowlist: Option<Seq<String>>,
    tool_name: Seq<char>,
    scope_valid: bool,
    decision: crate::security::Verdict,
    mode: AuthorityMode,
) -> Result<(ToolEffect, Option<Seq<char>>), OutcomeView> {
    if cancelled {
        Err(OutcomeView::Aborted("tool call was cancelled before authorization"@))
    } else if invocation_generation != run_generation {
        Err(OutcomeView::Rejected("tool call belongs to a stale run generation"@))
    } else if !allowlist_admits(allowlist, tool_name) {
        Err(authority_refusal(mode, "run_allowlist_denied"@, "tool call is outside the Run tool allowlist"@))
    } else if !scope_valid {
        Err(OutcomeView::Failed("tool "@ + tool_name + " has no valid required scope"@))
    } else {
        match decision {
            crate::security::Verdict::Allow(effect) => Ok((effect, None)),
            crate::security::Verdict::RequireApproval(effect, code) => Ok((effect, Some(code))),
            crate::security::Verdict::Deny(code) => Err(
                authority_refusal(mode, code, "tool call exceeds its structured authority: "@ + code),
            ),
        }
    }
}

fn listed(allowlist: &Vec<String>, name: &str) -> (b: bool)
    ensures
        b == allowlist_admits(Some(allowlist@), name@),
{
    let mut i: usize = 0;
    while i < allowlist.len()
        invariant
            i <= allowlist@.len(),
            forall|k: int| 0 <= k < i ==> (#[trigger] allowlist@[k])@ != name@,
        decreases allowlist@.len() - i,
    {
        if str_eq(allowlist[i].as_str(), name) {
            assert(allowlist@[i as int]@ == name@);
            assert(names_include(allowlist@, name@));
            return true;
        }
        i = i + 1;
    }
    false
}

/// Screens a call before authority is checked further (see `screening_view`).
pub fn screen_tool_call(
    cancelled: bool,
    invocation_generation: u64,
    run_generation: u64,
    allowlist: Option<&Vec<String>>,
    tool_name: &str,
    scope_valid: bool,
    decision: &AuthorityDecision,
    mode: AuthorityMode,
) -> (out: Screening)
    ensures
        match screening_view(
            cancelled,
            invocation_generation,
            run_generation,
            match allowlist {
                Some(l) => Some(l@),
                None => None,
            },
            tool_name@,
            scope_valid,
            decision@,
            mode,
        ) {
            Ok((effect, code)) => out matches Screening::Authorized { effect: e, forced_approval: f } && e == effect
                && crate::file_diff::opt_text(f) == code,
            Err(v) => out matches Screening::Stop(o) && outcome_view(o) == v,
        },
{
    if cancelled {
        return Screening::Stop(ToolOutcome::Aborted("tool call was cancelled before authorization".to_owned()));
    }
    if invocation_generation != run_generation {
        return Screening::Stop(ToolOutcome::Rejected("tool call belongs to a stale run generation".to_owned()));
    }
    let admitted = match allowlist {
        Some(l) => listed(l, tool_name),
        None => true,
    };
    if !admitted {
        return Screening::Stop(
            authority_rejection(mode, "run_allowlist_denied", "tool call is outside the Run tool allowlist".to_owned()),
        );
    }
    if !scope_valid {
        let mut m = "tool ".to_owned();
        push_str(&mut m, tool_name);
        push_str(&mut m, " has no valid required scope");
        return Screening::Stop(ToolOutcome::Failed(m));
    }
    match decision {
        AuthorityDecision::Allow { effective_effect } => Screening::Authorized {
            effect: *effective_effect,
            forced_approval: None,
        },
        AuthorityDecision::RequireApproval { effective_effect, code } => Screening::Authorized {
            effect: *effective_effect,
            forced_approval: Some(code.clone()),
        },
        AuthorityDecision::Deny { code } => Screening::Stop(
            authority_rejection(mode, code.as_str(), concat("tool call exceeds its structured authority: ", code.as_str())),
        ),
    }
}

/// The decision screening records in the audit log: a stale Run generation, a tool outside the
/// Run's allowlist, or a structured denial. A cancelled call and a tool without a valid scope
/// record nothing, nor does an authorized call.
pub open spec fn screening_audit_view(
    cancelled: bool,
    invocation_generation: u64,
    run_generation: u64,
    allowlist: Option<Seq<String>>,
    tool_name: Seq<char>,
    scope_valid: bool,
    decision: crate::security::Verdict,
) -> Option<Seq<char>> {
    if cancelled {
        None
    } else if invocation_generation != run_generation {
        Some("stale_generation"@)
    } else if !allowlist_admits(allowlist, tool_name) {
        Some("run_allowlist_denied"@)
    } else if !scope_valid {
        None
    } else if decision is Deny {
        Some("structured_authority_denied"@)
    } else {
        None
    }
}

/// The audit decision of a screening (see `screening_audit_view`).
pub fn screening_audit(
    cancelled: bool,
    invocation_generation: u64,
    run_generation: u64,
    allowlist: Option<&Vec<String>>,
    tool_name: &str,
    scope_valid: bool,
    decision: &AuthorityDecision,
) -> (out: Option<String>)
    ensures
        crate::file_diff::opt_text(out) == screening_audit_view(
            cancelled,
            invocation_generation,
            run_generation,
            match allowlist {
                Some(l) => Some(l@),
                None => None,
            },
            tool_name@,
            scope_valid,
            decision@,
        ),
{
    if cancelled {
        return None;
    }
    if invocation_generation != run_generation {
        return Some("stale_generation".to_owned());
    }
    let admitted = match allowlist {
        Some(l) => listed(l, tool_name),
        None => true,
    };
    if !admitted {
        return Some("run_allowlist_denied".to_owned());
    }
    if !scope_valid {
        return None;
    }
    match decision {
        AuthorityDecision::Deny { .. } => Some("structured_authority_denied".to_owned()),
        _ => None,
    }
}

/// A call whose effect is outside the active capability grant set is refused on authority.
pub fn grant_admission(mode: AuthorityMode, grant_allows: bool) -> (out: Option<ToolOutcome>)
    ensures
        grant_allows ==> out is None,
        !grant_allows ==> (out matches Some(o) && outcome_view(o) == authority_refusal(
            mode,
            "capability_grant_denied"@,
            "tool call is outside the active capability grant set"@,
        )),
{
    if grant_allows {
        None
    } else {
        Some(authority_rejection(mode, "capability_grant_denied", "tool call is outside the active capability grant set".to_owned()))
    }
}

/// Effects that change something outside the model's view go through side-effect claims.
pub fn is_side_effect(effect: ToolEffect) -> (b: bool)
    ensures
        b == !observes_only(effect),
{
    !(effect == ToolEffect::ReadOnly || effect == ToolEffect::BrowserObserve || effect == ToolEffect::ComputerObserve)
}

/// An approval counts only when it approves these exact parameters in this Run generation.
pub fn approval_check(
    approved: bool,
    resolved_parameter_hash: &str,
    parameter_hash: &str,
    resolved_generation: u64,
    invocation_generation: u64,
) -> (out: Option<ToolOutcome>)
    ensures
        (approved && resolved_parameter_hash@ == parameter_hash@ && resolved_generation == invocation_generation)
            ==> out is None,
        !(approved && resolved_parameter_hash@ == parameter_hash@ && resolved_generation == invocation_generation)
            ==> (out matches Some(o) && outcome_view(o) == OutcomeView::Rejected(
            "tool call was not approved for these exact parameters"@,
        )),
{
    if !approved || !str_eq(resolved_parameter_hash, parameter_hash) || resolved_generation != invocation_generation {
        Some(ToolOutcome::Rejected("tool call was not approved for these exact parameters".to_owned()))
    } else {
        None
    }
}

/// A call cancelled meanwhile is aborted; below full access, an effect the active sandbox
/// does not permit is refused on authority.
pub fn sandbox_admission(cancelled: bool, mode: AuthorityMode, full_access: bool, sandbox_permits: bool) -> (out: Option<
    ToolOutcome,
>)
    ensures
        cancelled ==> (out matches Some(o) && outcome_view(o) == OutcomeView::Aborted(
            "tool call was cancelled before sandbox admission"@,
        )),
        !cancelled && !full_access && !sandbox_permits ==> (out matches Some(o) && outcome_view(o) == authority_refusal(
            mode,
            "sandbox_unavailable"@,
            "tool side effect denied because no OS-enforced sandbox is active"@,
        )),
        !cancelled && (full_access || sandbox_permits) ==> out is None,
{
    if cancelled {
        return Some(ToolOutcome::Aborted("tool call was cancelled before sandbox admission".to_owned()));
    }
    if !full_access && !sandbox_permits {
        return Some(
            authority_rejection(mode, "sandbox_unavailable", "tool side effect denied because no OS-enforced sandbox is active".to_owned()),
        );
    }
    None
}

/// The idempotency key of a side effect: the recovery key when one was issued, otherwise the
/// Run generation and the call id.
pub fn side_effect_key(run_generation: u64, call_id: &str, recovery_key: Option<String>) -> (out: String)
    ensures
        out@ == match recovery_key {
            Some(k) => k@,
            None => "tool:"@ + crate::text::decimal(run_generation as nat) + ":"@ + call_id@,
        },
{
    match recovery_key {
        Some(k) => k,
        None => {
            let mut out = "tool:".to_owned();
            push_decimal(&mut out, run_generation);
            push_str(&mut out, ":");
            push_str(&mut out, call_id);
            out
        },
    }
}

/// A durable claim may only be replayed for the same call with the same parameters.
pub fn replay_conflicts(claim_call_id: &str, claim_parameter_hash: &str, call_id: &str, parameter_hash: &str) -> (b: bool)
    ensures
        b == (claim_call_id@ != call_id@ || claim_parameter_hash@ != parameter_hash@),
{
    !str_eq(claim_call_id, call_id) || !str_eq(claim_parameter_hash, parameter_hash)
}

pub open spec fn status_name(status: SideEffectExecutionStatus) -> Seq<char> {
    match status {
        SideEffectExecutionStatus::Claimed => "Claimed"@,
        SideEffectExecutionStatus::Dispatched => "Dispatched"@,
        SideEffectExecutionStatus::Succeeded => "Succeeded"@,
        SideEffectExecutionStatus::Failed => "Failed"@,
        SideEffectExecutionStatus::Indeterminate => "Indeterminate"@,
        SideEffectExecutionStatus::Cancelled => "Cancelled"@,
    }
}

fn status_label(status: SideEffectExecutionStatus) -> (out: &'static str)
    ensures
        out@ == status_name(status),
{
    match status {
        SideEffectExecutionStatus::Claimed => "Claimed",
        SideEffectExecutionStatus::Dispatched => "Dispatched",
        SideEffectExecutionStatus::Succeeded => "Succeeded",
        SideEffectExecutionStatus::Failed => "Failed",
        SideEffectExecutionStatus::Indeterminate => "Indeterminate",
        SideEffectExecutionStatus::Cancelled => "Cancelled",
    }
}

/// The result that stands for a call whose side effect was already claimed: a finished effect
/// gives back its persisted record; an unfinished one is not replayed.
pub fn duplicate_side_effect_result(call: &ToolCall, status: SideEffectExecutionStatus, persisted_result: Option<JsonValue>) -> (out: ToolOutcome)
    ensures
        (status == SideEffectExecutionStatus::Succeeded || status == SideEffectExecutionStatus::Failed) ==> (out matches ToolOutcome::Completed(r)
            && r.call_id@ == call.id@ && r.tool_name@ == call.name@ && r.status == (if status
            == SideEffectExecutionStatus::Succeeded {
            ToolResultStatus::Succeeded
        } else {
            ToolResultStatus::Failed
        }) && r.model_content@ == match as_str(field(persisted_or_null(persisted_result), "modelContent"@)) {
            Some(m) => m,
            None => "side effect already completed"@,
        } && json_view(r.structured_content) == match field(persisted_or_null(persisted_result), "structuredContent"@) {
            Some(s) => json_view(s),
            None => JsonView::Object(seq![("replayed"@, JsonView::Bool(true))]),
        }),
        !(status == SideEffectExecutionStatus::Succeeded || status == SideEffectExecutionStatus::Failed) ==> outcome_view(out)
            == OutcomeView::Rejected(
            "side effect was not replayed because its durable state is "@ + status_name(status),
        ),
{
    if status == SideEffectExecutionStatus::Succeeded || status == SideEffectExecutionStatus::Failed {
        let value = match persisted_result {
            Some(v) => v,
            None => JsonValue::Null,
        };
        let model_content = match get_str(&value, "modelContent") {
            Some(m) => m.clone(),
            None => "side effect already completed".to_owned(),
        };
        let structured_content = match get(&value, "structuredContent") {
            Some(s) => clone_json(s),
            None => {
                let members = vec![("replayed".to_owned(), JsonValue::Bool(true))];
                proof {
                    crate::budget::lemma_members_view(members@);
                    assert(crate::json::members_view(members@) =~= seq![("replayed"@, JsonView::Bool(true))]);
                }
                JsonValue::Object(members)
            },
        };
        ToolOutcome::Completed(
            ToolResult {
                call_id: call.id.clone(),
                tool_name: call.name.clone(),
                status: if status == SideEffectExecutionStatus::Succeeded {
                    ToolResultStatus::Succeeded
                } else {
                    ToolResultStatus::Failed
                },
                model_content,
                structured_content,
            },
        )
    } else {
        ToolOutcome::Rejected(concat("side effect was not replayed because its durable state is ", status_label(status)))
    }
}

pub open spec fn persisted_or_null(v: Option<JsonValue>) -> JsonValue {
    match v {
        Some(j) => j,
        None => JsonValue::Null,
    }
}

/// A call is authorized only when it was not cancelled, belongs to the Run's generation and
/// allowlist, has a valid required scope, and was not denied by its structured authority.
pub proof fn authorized_calls_passed_every_screen(
    cancelled: bool,
    invocation_generation: u64,
    run_generation: u64,
    allowlist: Option<Seq<String>>,
    tool_name: Seq<char>,
    scope_valid: bool,
    decision: crate::security::Verdict,
    mode: AuthorityMode,
)
    requires
        screening_view(cancelled, invocation_generation, run_generation, allowlist, tool_name, scope_valid, decision, mode)
            is Ok,
    ensures
        !cancelled,
        invocation_generation == run_generation,
        allowlist_admits(allowlist, tool_name),
        scope_valid,
        !(decision is Deny),
{
}

// ---------------------------------------------------------------------------------------------
// Waiting for an approval
// ---------------------------------------------------------------------------------------------

/// Where a Run stands.
#[derive(PartialEq, Eq, Structural, Clone, Copy, Debug)]
pub enum RunStatus {
    Queued,
    Preparing,
    Running,
    WaitingApproval,
    WaitingUserInput,
    WaitingRecoveryDecision,
    Recovering,
    Cancelling,
    Cancelled,
    Failed,
    Succeeded,
}

pub open spec fn run_status_name(status: RunStatus) -> Seq<char> {
    match status {
        RunStatus::Queued => "Queued"@,
        RunStatus::Preparing => "Preparing"@,
        RunStatus::Running => "Running"@,
        RunStatus::WaitingApproval => "WaitingApproval"@,
        RunStatus::WaitingUserInput => "WaitingUserInput"@,
        RunStatus::WaitingRecoveryDecision => "WaitingRecoveryDecision"@,
        RunStatus::Recovering => "Recovering"@,
        RunStatus::Cancelling => "Cancelling"@,
        RunStatus::Cancelled => "Cancelled"@,
        RunStatus::Failed => "Failed"@,
        RunStatus::Succeeded => "Succeeded"@,
    }
}

fn run_status_label(status: RunStatus) -> (out: &'static str)
    ensures
        out@ == run_status_name(status),
{
    match status {
        RunStatus::Queued => "Queued",
        RunStatus::Preparing => "Preparing",
        RunStatus::Running => "Running",
        RunStatus::WaitingApproval => "WaitingApproval",
        RunStatus::WaitingUserInput => "WaitingUserInput",
        RunStatus::WaitingRecoveryDecision => "WaitingRecoveryDecision",
        RunStatus::Recovering => "Recovering",
        RunStatus::Cancelling => "Cancelling",
        RunStatus::Cancelled => "Cancelled",
        RunStatus::Failed => "Failed",
        RunStatus::Succeeded => "Succeeded",
    }
}

/// Before asking for an approval, a running Run of the expected generation moves to waiting
/// for it (a waiting one stays); a missing Run, a newer generation or any other status fails
/// the call. `Ok(Some(s))` asks the store to move the Run to `s`.
pub fn enter_approval_wait(run: Option<(u64, RunStatus)>, run_id: &str, generation: u64) -> (out: Result<
    Option<RunStatus>,
    ToolExecutionError,
>)
    ensures
        match run {
            None => out matches Err(e) && failure_text(e) == "run "@ + run_id@ + " disappeared before approval"@,
            Some((g, status)) => if g != generation {
                out matches Err(e) && failure_text(e) == "run generation changed before approval"@
            } else if status == RunStatus::Running {
                out == Ok::<Option<RunStatus>, ToolExecutionError>(Some(RunStatus::WaitingApproval))
            } else if status == RunStatus::WaitingApproval {
                out == Ok::<Option<RunStatus>, ToolExecutionError>(None)
            } else {
                out matches Err(e) && failure_text(e) == "run cannot wait for approval while it is "@ + run_status_name(status)
            },
        },
{
    match run {
        None => {
            let mut m = "run ".to_owned();
            push_str(&mut m, run_id);
            push_str(&mut m, " disappeared before approval");
            Err(ToolExecutionError::Failed(m))
        },
        Some((g, status)) => {
            if g != generation {
                Err(failed("run generation changed before approval"))
            } else if status == RunStatus::Running {
                Ok(Some(RunStatus::WaitingApproval))
            } else if status == RunStatus::WaitingApproval {
                Ok(None)
            } else {
                let mut m = "run cannot wait for approval while it is ".to_owned();
                push_str(&mut m, run_status_label(status));
                Err(ToolExecutionError::Failed(m))
            }
        },
    }
}

/// After an approval, a Run still waiting for it goes back to running; a missing Run or a
/// newer generation fails the call; any other status is left as it is.
pub fn leave_approval_wait(run: Option<(u64, RunStatus)>, run_id: &str, generation: u64) -> (out: Result<
    Option<RunStatus>,
    ToolExecutionError,
>)
    ensures
        match run {
            None => out matches Err(e) && failure_text(e) == "run "@ + run_id@ + " disappeared after approval"@,
            Some((g, status)) => if g != generation {
                out matches Err(e) && failure_text(e) == "run generation changed while approval was pending"@
            } else if status == RunStatus::WaitingApproval {
                out == Ok::<Option<RunStatus>, ToolExecutionError>(Some(RunStatus::Running))
            } else {
                out == Ok::<Option<RunStatus>, ToolExecutionError>(None)
            },
        },
{
    match run {
        None => {
            let mut m = "run ".to_owned();
            push_str(&mut m, run_id);
            push_str(&mut m, " disappeared after approval");
            Err(ToolExecutionError::Failed(m))
        },
        Some((g, status)) => {
            if g != generation {
                Err(failed("run generation changed while approval was pending"))
            } else if status == RunStatus::WaitingApproval {
                Ok(Some(RunStatus::Running))
            } else {
                Ok(None)
            }
        },
    }
}

/// A failure of the store while moving a Run around an approval.
pub fn approval_state_failure(error: &str) -> (out: ToolExecutionError)
    ensures
        failure_text(out) == "approval run state failed: "@ + error@,
{
    let mut m = "approval run state failed: ".to_owned();
    push_str(&mut m, error);
    ToolExecutionError::Failed(m)
}

} // verus!
