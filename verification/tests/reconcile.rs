use hachimi_agent::reconcile::{
    reconcile_action, restart_check, ReconcileAction, ReconciliationCounts, RecoveryFacts, TaskFacts,
};

fn task() -> TaskFacts {
    TaskFacts {
        parent_found: true,
        child_found: true,
        parent_cancelled: false,
        child_terminal: false,
        child_can_cancel: true,
        child_recovering: false,
        recovery: None,
    }
}

#[test]
fn reconciliation_follows_the_task_state() {
    assert_eq!(reconcile_action(TaskFacts { parent_found: false, ..task() }), ReconcileAction::Fail("agent_task_parent_missing"));
    assert_eq!(reconcile_action(TaskFacts { child_found: false, ..task() }), ReconcileAction::Fail("agent_task_child_run_missing"));
    assert_eq!(
        reconcile_action(TaskFacts { parent_cancelled: true, ..task() }),
        ReconcileAction::CancelWithParent { cancel_child: true }
    );
    assert_eq!(
        reconcile_action(TaskFacts { parent_cancelled: true, child_terminal: true, ..task() }),
        ReconcileAction::CancelWithParent { cancel_child: false }
    );
    assert_eq!(reconcile_action(TaskFacts { child_terminal: true, ..task() }), ReconcileAction::SyncTerminal);
    assert_eq!(reconcile_action(task()), ReconcileAction::CheckRestart);
}

#[test]
fn unattended_child_waiting_for_approval_needs_attention() {
    let recovering = TaskFacts { child_recovering: true, ..task() };
    assert_eq!(reconcile_action(recovering), ReconcileAction::Fail("agent_task_recovery_record_missing"));
    let waiting = TaskFacts { recovery: Some(RecoveryFacts { waited_for_user: true, eligible_auto: true }), ..recovering };
    assert_eq!(reconcile_action(waiting), ReconcileAction::NeedsAttention);
    let unsafe_recovery = TaskFacts { recovery: Some(RecoveryFacts { waited_for_user: false, eligible_auto: false }), ..recovering };
    assert_eq!(reconcile_action(unsafe_recovery), ReconcileAction::Fail("agent_task_recovery_not_provable"));
    let safe = TaskFacts { recovery: Some(RecoveryFacts { waited_for_user: false, eligible_auto: true }), ..recovering };
    assert_eq!(reconcile_action(safe), ReconcileAction::ResolveRecovery);
    assert_eq!(restart_check(true), None);
    assert_eq!(restart_check(false), Some("agent_task_child_not_restartable"));
}

#[test]
fn reports_count_each_outcome() {
    let mut counts = ReconciliationCounts::start(5);
    counts.record(&ReconcileAction::Fail("x"));
    counts.record(&ReconcileAction::CancelWithParent { cancel_child: true });
    counts.record(&ReconcileAction::SyncTerminal);
    counts.record(&ReconcileAction::NeedsAttention);
    counts.record(&ReconcileAction::CheckRestart);
    counts.record_resumed();
    counts.record_failure();
    assert_eq!(
        counts,
        ReconciliationCounts { inspected: 5, resumed: 1, synchronized_terminal: 1, needs_attention: 1, failed: 2, cancelled: 1 }
    );
    let mut full = ReconciliationCounts { failed: u64::MAX, ..ReconciliationCounts::start(0) };
    full.record_failure();
    assert_eq!(full.failed, u64::MAX);
}
