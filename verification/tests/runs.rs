use hachimi_agent::runs::{
    launch_permissions, validate_run_lineage, ApprovalPolicy, RunLineage, validate_create_request, AgentExecutorRegistryError, AgentRunCreateRequest, AgentRunFactoryError,
    AgentRunPriority, BehaviorMode, EntryProfile, ExecutionTarget, LaneError, LaneGenerations, RunRegistry,
    SessionContextBinding, WorkloadKind,
};
use hachimi_agent::security::{AuthorityMode, PermissionProfile};

fn request() -> AgentRunCreateRequest {
    AgentRunCreateRequest {
        prompt: "Fix the bug".into(),
        title: "Bug fix".into(),
        behavior_mode: BehaviorMode::Default,
        permission_profile: PermissionProfile::WorkspaceWrite,
        entry_profile: EntryProfile::Workbench,
        workload_override: None,
        context: SessionContextBinding::General,
        execution_target: None,
    }
}

fn target(project: &str) -> Option<ExecutionTarget> {
    Some(ExecutionTarget { project_id: project.into(), checkout_id: "checkout".into() })
}

#[test]
fn create_requests_are_validated_in_order() {
    assert_eq!(validate_create_request(&request()), Ok(()));
    assert_eq!(
        validate_create_request(&AgentRunCreateRequest { prompt: "   ".into(), title: String::new(), ..request() }),
        Err(AgentRunFactoryError::InvalidPrompt)
    );
    assert_eq!(
        validate_create_request(&AgentRunCreateRequest { title: "t".repeat(201), ..request() }),
        Err(AgentRunFactoryError::InvalidTitle)
    );
    assert_eq!(
        validate_create_request(&AgentRunCreateRequest { behavior_mode: BehaviorMode::Plan, ..request() }),
        Err(AgentRunFactoryError::PlanMustBeReadOnly)
    );
    assert_eq!(
        validate_create_request(&AgentRunCreateRequest {
            behavior_mode: BehaviorMode::Plan,
            permission_profile: PermissionProfile::ReadOnly,
            ..request()
        }),
        Ok(())
    );
}

#[test]
fn coding_runs_need_a_matching_project_target() {
    let coding = |context: SessionContextBinding, execution_target: Option<ExecutionTarget>| AgentRunCreateRequest {
        workload_override: Some(WorkloadKind::Coding),
        context,
        execution_target,
        ..request()
    };
    assert_eq!(
        validate_create_request(&coding(SessionContextBinding::Project { project_id: "p".into() }, target("p"))),
        Ok(())
    );
    assert_eq!(
        validate_create_request(&coding(SessionContextBinding::Project { project_id: "p".into() }, target("q"))),
        Err(AgentRunFactoryError::CodingProjectRequired)
    );
    assert_eq!(
        validate_create_request(&coding(SessionContextBinding::General, None)),
        Err(AgentRunFactoryError::CodingProjectRequired)
    );
}

#[test]
fn other_entries_and_targets_are_refused() {
    assert_eq!(
        validate_create_request(&AgentRunCreateRequest { entry_profile: EntryProfile::DesktopControl, ..request() }),
        Err(AgentRunFactoryError::DesktopControlDisabled)
    );
    assert_eq!(
        validate_create_request(&AgentRunCreateRequest {
            context: SessionContextBinding::Avatar { avatar_id: "a".into() },
            execution_target: target("p"),
            ..request()
        }),
        Err(AgentRunFactoryError::UnexpectedExecutionTarget)
    );
    assert_eq!(AgentRunFactoryError::InvalidPrompt.message(), "prompt must contain 1-32000 characters");
}

#[test]
fn registry_finds_cancels_and_removes_runs_by_generation() {
    let mut registry = RunRegistry::new();
    assert!(registry.is_empty());
    assert_eq!(registry.register("s1", "r1", 1, AgentRunPriority::Interactive), Ok(()));
    assert_eq!(registry.register("s1", "r2", 3, AgentRunPriority::Background), Ok(()));
    assert_eq!(
        registry.register("s2", "r1", 9, AgentRunPriority::Background),
        Err(AgentExecutorRegistryError::AlreadyRegistered)
    );
    assert_eq!(registry.get("r1"), Some(("s1".to_owned(), 1, AgentRunPriority::Interactive)));
    assert_eq!(registry.cancel("r1", 1), Ok("s1".to_owned()));
    assert_eq!(registry.cancel("r1", 2), Err(AgentExecutorRegistryError::StaleGeneration));
    assert_eq!(registry.cancel("zz", 1), Err(AgentExecutorRegistryError::NotRegistered));
    let mut runs = registry.runs_of_session("s1");
    runs.sort();
    assert_eq!(runs, vec!["r1".to_owned(), "r2".to_owned()]);
    assert!(!registry.remove("r2", 2));
    assert!(registry.remove("r2", 3));
    assert_eq!(registry.get("r2"), None);
    assert!(registry.remove("r1", 1));
    assert!(registry.is_empty());
    assert_eq!(AgentExecutorRegistryError::StaleGeneration.message(), "run generation precondition failed");
}

#[test]
fn reset_fences_old_generation() {
    let mut lanes = LaneGenerations::new();
    let first = lanes.marker("session-1");
    assert_eq!(first.generation, 1);
    assert!(lanes.is_current(&first));
    let current = lanes.reset("session-1");
    assert_eq!(current.generation, 2);
    assert!(!lanes.is_current(&first));
    assert!(lanes.is_current(&current));
    assert_eq!(lanes.check_entry("session-1", 1), Err(LaneError::StaleGeneration));
    assert_eq!(lanes.check_entry("session-1", 2), Ok(()));
    assert_eq!(lanes.generation("session-2"), 1);
    assert_eq!(lanes.reset("session-1").generation, 3);
    assert_eq!(LaneError::Cancelled.message(), "session lane was cancelled");
}

#[test]
fn launches_follow_mode_and_authority() {
    assert_eq!(
        launch_permissions(BehaviorMode::Plan, PermissionProfile::FullAccess, AuthorityMode::Interactive),
        (PermissionProfile::ReadOnly, ApprovalPolicy::OnlyWhenNeeded)
    );
    assert_eq!(
        launch_permissions(BehaviorMode::Default, PermissionProfile::FullAccess, AuthorityMode::Interactive),
        (PermissionProfile::FullAccess, ApprovalPolicy::NeverPrompt)
    );
    assert_eq!(
        launch_permissions(BehaviorMode::Default, PermissionProfile::Writable, AuthorityMode::Unattended),
        (PermissionProfile::Writable, ApprovalPolicy::NeverPrompt)
    );
    assert_eq!(
        launch_permissions(BehaviorMode::Default, PermissionProfile::WorkspaceWrite, AuthorityMode::Interactive),
        (PermissionProfile::WorkspaceWrite, ApprovalPolicy::OnlyWhenNeeded)
    );
}

fn lineage() -> RunLineage {
    RunLineage {
        run_id: "run".into(),
        run_session_id: "session".into(),
        run_entry_profile: EntryProfile::Workbench,
        run_workload_override: Some(WorkloadKind::Coding),
        session_id: "session".into(),
        session_entry_profile: EntryProfile::Workbench,
        request_workload_override: Some(WorkloadKind::Coding),
        grants_session_id: "session".into(),
        grants_run_id: Some("run".into()),
    }
}

#[test]
fn run_requests_must_keep_their_lineage() {
    assert_eq!(validate_run_lineage(&lineage()), Ok(()));
    let message = "AgentRunRequest lineage or immutable snapshots do not match".to_owned();
    assert_eq!(validate_run_lineage(&RunLineage { grants_run_id: None, ..lineage() }), Err(message.clone()));
    assert_eq!(validate_run_lineage(&RunLineage { run_session_id: "other".into(), ..lineage() }), Err(message.clone()));
    assert_eq!(
        validate_run_lineage(&RunLineage { request_workload_override: None, ..lineage() }),
        Err(message.clone())
    );
    assert_eq!(
        validate_run_lineage(&RunLineage { session_entry_profile: EntryProfile::PetConversation, ..lineage() }),
        Err(message)
    );
}

#[test]
fn runs_execute_only_under_their_own_registration() {
    assert!(hachimi_agent::runs::registration_matches(3, "s1", 3, "s1"));
    assert!(!hachimi_agent::runs::registration_matches(2, "s1", 3, "s1"));
    assert!(!hachimi_agent::runs::registration_matches(3, "s2", 3, "s1"));
}

#[test]
fn failed_compaction_is_recorded_and_the_run_continues() {
    let review = hachimi_agent::runs::checkpoint_choice(true, hachimi_agent::runs::PreRunCompaction::Installed);
    assert!(matches!(review, hachimi_agent::runs::CheckpointChoice::NoCheckpoint));
    assert!(matches!(
        hachimi_agent::runs::checkpoint_choice(false, hachimi_agent::runs::PreRunCompaction::NotNeeded),
        hachimi_agent::runs::CheckpointChoice::Latest
    ));
    let cancelled = hachimi_agent::runs::checkpoint_choice(
        false,
        hachimi_agent::runs::PreRunCompaction::Failed(hachimi_agent::compaction_flow::CompactionError::Runtime(
            hachimi_agent::compaction_flow::ModelRuntimeErrorKind::Cancelled,
        )),
    );
    assert!(matches!(cancelled, hachimi_agent::runs::CheckpointChoice::Cancelled));
    let failed = hachimi_agent::runs::checkpoint_choice(
        false,
        hachimi_agent::runs::PreRunCompaction::Failed(hachimi_agent::compaction_flow::CompactionError::Runtime(
            hachimi_agent::compaction_flow::ModelRuntimeErrorKind::Other,
        )),
    );
    match failed {
        hachimi_agent::runs::CheckpointChoice::LatestAfterFailure(payload) => assert_eq!(
            hachimi_agent::json::print_json(&payload),
            r#"{"code":"compaction_model_failed","fallback":"previous_checkpoint_or_raw_tail"}"#
        ),
        other => panic!("unexpected {other:?}"),
    }
}

#[test]
fn a_reset_lane_turns_success_into_a_stale_generation() {
    assert_eq!(hachimi_agent::runs::lane_checked_result(false, Ok::<(), &str>(()), "stale"), Err("stale"));
    assert_eq!(hachimi_agent::runs::lane_checked_result(false, Err::<(), &str>("boom"), "stale"), Err("boom"));
    assert_eq!(hachimi_agent::runs::lane_checked_result(true, Ok::<(), &str>(()), "stale"), Ok(()));
}
