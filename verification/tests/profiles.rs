use hachimi_agent::delegation::RunBudget;
use hachimi_agent::profiles::{profile_runtime_context, workload_profile_spec};
use hachimi_agent::runs::{BehaviorMode, EntryProfile, WorkloadKind};

fn budget() -> RunBudget {
    RunBudget {
        max_model_requests: 32,
        max_tool_calls: 64,
        max_parallel_read_tools: 4,
        model_timeout_ms: 120_000,
        tool_timeout_ms: 60_000,
    }
}

#[test]
fn coding_profile_lists_checkout_context_and_verification_criteria() {
    let spec = workload_profile_spec(EntryProfile::Workbench, WorkloadKind::Coding, budget());
    assert_eq!(spec.entry_profile, EntryProfile::Workbench);
    assert_eq!(spec.workload, WorkloadKind::Coding);
    assert!(spec.system_prompt.starts_with("You are the Hachimi coding workbench agent."));
    assert_eq!(
        spec.dynamic_context_fields,
        vec!["session_origin", "project", "checkout", "git", "mode", "permissions", "sandbox", "agents_md", "skills", "mcp", "budget"]
    );
    assert_eq!(spec.completion_criteria.len(), 3);
    assert_eq!(spec.completion_criteria[1], "relevant verification is executed when permitted");
    assert_eq!(spec.default_budget, budget());
}

#[test]
fn pet_profile_overrides_every_workload() {
    for workload in [WorkloadKind::General, WorkloadKind::Coding, WorkloadKind::Office] {
        let spec = workload_profile_spec(EntryProfile::PetConversation, workload, budget());
        assert_eq!(spec.entry_profile, EntryProfile::PetConversation);
        assert_eq!(spec.workload, workload);
        assert!(spec.system_prompt.starts_with("You are the Hachimi Pet agent"));
        assert_eq!(spec.dynamic_context_fields, vec!["session_origin", "mode", "permissions", "sandbox", "skills", "mcp", "budget"]);
    }
}

#[test]
fn office_and_general_profiles_differ_in_context_fields() {
    let general = workload_profile_spec(EntryProfile::Workbench, WorkloadKind::General, budget());
    let office = workload_profile_spec(EntryProfile::Workbench, WorkloadKind::Office, budget());
    assert!(general.dynamic_context_fields.contains(&"agents_md"));
    assert!(!office.dynamic_context_fields.contains(&"agents_md"));
    assert!(office.system_prompt.starts_with("You are the Hachimi office workbench agent."));
}

#[test]
fn runtime_context_names_profile_workload_context_and_rules() {
    let text = profile_runtime_context(EntryProfile::Workbench, WorkloadKind::General, BehaviorMode::Plan, "General");
    let spec = workload_profile_spec(EntryProfile::Workbench, WorkloadKind::General, budget());
    assert!(text.starts_with(spec.system_prompt));
    assert!(text.contains("\n\nRuntime entry_profile=Workbench; workload=General; context=General. Plan mode is enforced as read-only"));
    assert!(text.ends_with("Reserve the final answer for the completed result."));
}

#[test]
fn pet_runtime_context_has_no_progress_rule() {
    let text = profile_runtime_context(EntryProfile::PetConversation, WorkloadKind::Office, BehaviorMode::Default, "Avatar");
    assert!(text.ends_with(
        "Runtime entry_profile=PetConversation; workload=Office; context=Avatar. Every side effect requires current Tool, Policy, Approval, Sandbox, Host, and grant checks. "
    ));
}
