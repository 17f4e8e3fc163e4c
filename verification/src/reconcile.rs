//! Startup reconciliation of child Agent tasks: what happens to each task that was not
//! finished when the host stopped, and the report that counts it.

use vstd::prelude::*;

verus! {

/// What the store knows of a task's pending recovery.
#[derive(PartialEq, Eq, Structural, Clone, Copy, Debug)]
pub struct RecoveryFacts {
    /// The child was waiting for an approval or for user input when it was interrupted.
    pub waited_for_user: bool,
    /// The recovery may resume automatically.
    pub eligible_auto: bool,
}

/// What the store knows of one nonterminal task.
#[derive(PartialEq, Eq, Structural, Clone, Copy, Debug)]
pub struct TaskFacts {
    pub parent_found: bool,
    pub child_found: bool,
    pub parent_cancelled: bool,
    pub child_terminal: bool,
    /// The child's status may move to cancelled.
    pub child_can_cancel: bool,
    /// The child is recovering or waiting for a recovery decision.
    pub child_recovering: bool,
    pub recovery: Option<RecoveryFacts>,
}

/// What reconciliation does with a task.
#[derive(PartialEq, Eq, Debug)]
pub enum ReconcileAction {
    /// Fail the task (and its child Run where it can fail) with a stable code.
    Fail(&'static str),
    /// The parent was cancelled: cancel the task, and the child Run when it can be.
    CancelWithParent { cancel_child: bool },
    /// The child already finished: take the task's state from it.
    SyncTerminal,
    /// The child was waiting for a person; an unattended child cannot go on.
    NeedsAttention,
    /// Resume the child's safe remainder, then check that it can restart.
    ResolveRecovery,
    /// Check that the child can restart.
    CheckRestart,
}

pub enum ActionView {
    Fail(Seq<char>),
    CancelWithParent(bool),
    SyncTerminal,
    NeedsAttention,
    ResolveRecovery,
    CheckRestart,
}

pub open spec fn action_view(a: ReconcileAction) -> ActionView {
    match a {
        ReconcileAction::Fail(code) => ActionView::Fail(code@),
        ReconcileAction::CancelWithParent { cancel_child } => ActionView::CancelWithParent(cancel_child),
        ReconcileAction::SyncTerminal => ActionView::SyncTerminal,
        ReconcileAction::NeedsAttention => ActionView::NeedsAttention,
        ReconcileAction::ResolveRecovery => ActionView::ResolveRecovery,
        ReconcileAction::CheckRestart => ActionView::CheckRestart,
    }
}

/// The decision on one task, in order: a missing parent or child fails it; a cancelled parent
/// cancels it; a finished child settles it; a recovering child needs its recovery record, and
/// then needs attention when it was waiting for a person, fails when the recovery is not
/// provably safe, and resumes otherwise; any other child is checked for a restart.
pub open spec fn reconcile_action_of(t: TaskFacts) -> ActionView {
    if !t.parent_found {
        ActionView::Fail("agent_task_parent_missing"@)
    } else if !t.child_found {
        ActionView::Fail("agent_task_child_run_missing"@)
    } else if t.parent_cancelled {
        ActionView::CancelWithParent(!t.child_terminal && t.child_can_cancel)
    } else if t.child_terminal {
        ActionView::SyncTerminal
    } else if t.child_recovering {
        match t.recovery {
            None => ActionView::Fail("agent_task_recovery_record_missing"@),
            Some(r) => if r.waited_for_user {
                ActionView::NeedsAttention
            } else if !r.eligible_auto {
                ActionView::Fail("agent_task_recovery_not_provable"@)
            } else {
                ActionView::ResolveRecovery
            },
        }
    } else {
        ActionView::CheckRestart
    }
}

pub fn reconcile_action(t: TaskFacts) -> (out: ReconcileAction)
    ensures
        action_view(out) == reconcile_action_of(t),
{
    if !t.parent_found {
        ReconcileAction::Fail("agent_task_parent_missing")
    } else if !t.child_found {
        ReconcileAction::Fail("agent_task_child_run_missing")
    } else if t.parent_cancelled {
        ReconcileAction::CancelWithParent { cancel_child: !t.child_terminal && t.child_can_cancel }
    } else if t.child_terminal {
        ReconcileAction::SyncTerminal
    } else if t.child_recovering {
        match t.recovery {
            None => ReconcileAction::Fail("agent_task_recovery_record_missing"),
            Some(r) => if r.waited_for_user {
                ReconcileAction::NeedsAttention
            } else if !r.eligible_auto {
                ReconcileAction::Fail("agent_task_recovery_not_provable")
            } else {
                ReconcileAction::ResolveRecovery
            },
        }
    } else {
        ReconcileAction::CheckRestart
    }
}

/// An unattended child that was waiting for a person never resumes after a restart: its task
/// needs attention, is cancelled with its parent, or fails.
pub proof fn waiting_children_never_resume(t: TaskFacts)
    requires
        t.child_recovering,
        t.recovery matches Some(r) && r.waited_for_user,
    ensures
        !(reconcile_action_of(t) is ResolveRecovery),
        !(reconcile_action_of(t) is CheckRestart),
{
}

/// Only a queued child restarts; any other fails its task.
pub fn restart_check(child_queued: bool) -> (out: Option<&'static str>)
    ensures
        child_queued ==> out is None,
        !child_queued ==> (out matches Some(code) && code@ == "agent_task_child_not_restartable"@),
{
    if child_queued {
        None
    } else {
        Some("agent_task_child_not_restartable")
    }
}

/// The counts of one reconciliation pass.
#[derive(PartialEq, Eq, Structural, Clone, Copy, Debug)]
pub struct ReconciliationCounts {
    pub inspected: u64,
    pub resumed: u64,
    pub synchronized_terminal: u64,
    pub needs_attention: u64,
    pub failed: u64,
    pub cancelled: u64,
}

pub open spec fn bump(n: u64) -> u64 {
    if n == u64::MAX { n } else { (n + 1) as u64 }
}

/// How an action moves the counts; a resolved recovery or a restart check counts when its
/// outcome is known.
pub open spec fn counted(c: ReconciliationCounts, a: ActionView) -> ReconciliationCounts {
    match a {
        ActionView::Fail(_) => ReconciliationCounts { failed: bump(c.failed), ..c },
        ActionView::CancelWithParent(_) => ReconciliationCounts { cancelled: bump(c.cancelled), ..c },
        ActionView::SyncTerminal => ReconciliationCounts { synchronized_terminal: bump(c.synchronized_terminal), ..c },
        ActionView::NeedsAttention => ReconciliationCounts { needs_attention: bump(c.needs_attention), ..c },
        _ => c,
    }
}

impl ReconciliationCounts {
    /// A pass over `inspected` tasks with nothing counted yet.
    pub fn start(inspected: usize) -> (c: Self)
        ensures
            c.inspected == (if inspected as nat > u64::MAX as nat { u64::MAX as nat } else { inspected as nat }),
            c.resumed == 0 && c.synchronized_terminal == 0 && c.needs_attention == 0 && c.failed == 0 && c.cancelled == 0,
    {
        let inspected = if inspected as u128 > 18446744073709551615u128 { u64::MAX } else { inspected as u64 };
        ReconciliationCounts { inspected, resumed: 0, synchronized_terminal: 0, needs_attention: 0, failed: 0, cancelled: 0 }
    }

    /// Counts a settled action.
    pub fn record(&mut self, action: &ReconcileAction)
        ensures
            *final(self) == counted(*old(self), action_view(*action)),
    {
        match action {
            ReconcileAction::Fail(_) => self.failed = self.failed.saturating_add(1),
            ReconcileAction::CancelWithParent { .. } => self.cancelled = self.cancelled.saturating_add(1),
            ReconcileAction::SyncTerminal => self.synchronized_terminal = self.synchronized_terminal.saturating_add(1),
            ReconcileAction::NeedsAttention => self.needs_attention = self.needs_attention.saturating_add(1),
            _ => {},
        }
    }

    /// Counts a task that failed after its recovery or restart check.
    pub fn record_failure(&mut self)
        ensures
            *final(self) == (ReconciliationCounts { failed: bump(old(self).failed), ..*old(self) }),
    {
        self.failed = self.failed.saturating_add(1);
    }

    /// Counts a resumed task.
    pub fn record_resumed(&mut self)
        ensures
            *final(self) == (ReconciliationCounts { resumed: bump(old(self).resumed), ..*old(self) }),
    {
        self.resumed = self.resumed.saturating_add(1);
    }
}

} // verus!
