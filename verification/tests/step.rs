use hachimi_agent::json::parse_json;
use hachimi_agent::security::{ToolDescriptor, ToolEffect};
use hachimi_agent::step::{
    canonical_hash, context_hash, intersect_sandbox_reports, same_report, SandboxCapabilityReport, SandboxReadiness,
    SkillActivation, StepContextFactory, StepContextIdentity, StepRuntimeSnapshot, StepWorld, StepWorldState, ToolPlan, WorkloadResolution,
};
use hachimi_agent::runs::{BehaviorMode, EntryProfile, WorkloadKind};
use hachimi_agent::skills::WorkloadResolutionSource;

fn unavailable_sandbox() -> SandboxCapabilityReport {
    SandboxCapabilityReport {
        backend: "test".into(),
        readiness: SandboxReadiness::Unavailable,
        os_enforced: false,
        filesystem_enforced: false,
        process_enforced: false,
        network_enforced: false,
        version: None,
        stable_error_code: None,
        diagnostics: Vec::new(),
    }
}

fn ready_sandbox() -> SandboxCapabilityReport {
    SandboxCapabilityReport {
        backend: "windows-appcontainer".into(),
        readiness: SandboxReadiness::Ready,
        os_enforced: true,
        filesystem_enforced: true,
        process_enforced: true,
        network_enforced: true,
        version: Some("2".into()),
        stable_error_code: None,
        diagnostics: Vec::new(),
    }
}

fn world(sandbox: SandboxCapabilityReport) -> StepWorldState {
    StepWorldState {
        context_revision: 1,
        profile_revision: 1,
        agents_revision: "agents".into(),
        skills_revision: "skills".into(),
        mcp_revision: "mcp".into(),
        host_revision: "host".into(),
        instructions: Vec::new(),
        skill_activations: Vec::new(),
        mcp_bindings: Vec::new(),
        disabled_tool_names: Vec::new(),
        diagnostics: Vec::new(),
        sandbox,
        host_ready: true,
    }
}

fn described(name: &str, description: &str, effect: ToolEffect, parallel_safe: bool) -> ToolDescriptor {
    ToolDescriptor {
        name: name.into(),
        description: description.into(),
        input_schema: parse_json(r#"{"type":"object"}"#).unwrap(),
        effect,
        parallel_safe,
        required_scopes: Vec::new(),
    }
}

fn tool(name: &str, effect: ToolEffect) -> ToolDescriptor {
    described(name, "tool", effect, false)
}

fn descriptors() -> Vec<ToolDescriptor> {
    vec![
        described("workspace_write_file", "write", ToolEffect::WorkspaceWrite, false),
        described("workspace_read_file", "read", ToolEffect::ReadOnly, true),
    ]
}

fn build(mode: BehaviorMode, tool_calls: bool, tools: Vec<ToolDescriptor>, allow: &Vec<bool>, allowlist: Option<&Vec<String>>, disabled: &Vec<String>) -> ToolPlan {
    ToolPlan::build(EntryProfile::Workbench, WorkloadKind::Coding, mode, tool_calls, false, tools, allow, allowlist, disabled)
}

#[test]
fn tool_plan_is_stable_and_plan_mode_removes_side_effects() {
    let first = build(BehaviorMode::Plan, true, descriptors(), &vec![true, true], None, &Vec::new());
    let second = build(BehaviorMode::Plan, true, descriptors(), &vec![true, true], None, &Vec::new());
    assert_eq!(first.hash, second.hash);
    assert!(first.allows("workspace_read_file"));
    assert!(!first.allows("workspace_write_file"));
    assert_eq!(
        first.hash,
        canonical_hash(
            r#"["Workbench","Coding","Plan",true,false,[{"description":"read","effect":"ReadOnly","inputSchema":{"type":"object"},"name":"workspace_read_file","parallelSafe":true,"requiredScopes":[]}]]"#
        )
    );
    let mut other_schema = descriptors();
    other_schema[1].input_schema = parse_json(r#"{"type":"object","required":["path"]}"#).unwrap();
    let changed = build(BehaviorMode::Plan, true, other_schema, &vec![true, true], None, &Vec::new());
    assert_ne!(first.hash, changed.hash);
    let mut other_text = descriptors();
    other_text[1].description = "read a file".into();
    assert_ne!(first.hash, build(BehaviorMode::Plan, true, other_text, &vec![true, true], None, &Vec::new()).hash);
    let default_mode = build(BehaviorMode::Default, true, descriptors(), &vec![true, true], None, &Vec::new());
    assert_ne!(first.hash, default_mode.hash);
}

#[test]
fn plan_mode_judges_each_tool_by_its_own_effect() {
    let same_name = vec![
        tool("tool", ToolEffect::WorkspaceWrite),
        tool("tool", ToolEffect::ReadOnly),
    ];
    let plan = build(BehaviorMode::Plan, true, same_name, &vec![true, true], None, &Vec::new());
    assert_eq!(plan.tools.len(), 1);
    assert_eq!(plan.tools[0].effect, ToolEffect::ReadOnly);
}

#[test]
fn tool_plans_are_sorted_and_filtered() {
    let tools = vec![
        tool("zeta", ToolEffect::ReadOnly),
        tool("alpha", ToolEffect::Process),
        tool("mid", ToolEffect::ReadOnly),
        tool("hidden", ToolEffect::ReadOnly),
        tool("denied", ToolEffect::ReadOnly),
    ];
    let allow = vec![true, true, true, true, false];
    let disabled = vec!["hidden".to_owned()];
    let out = build(BehaviorMode::Default, true, tools, &allow, None, &disabled).tools;
    let names = out.iter().map(|tool| tool.name.as_str()).collect::<Vec<_>>();
    assert_eq!(names, vec!["alpha", "mid", "zeta"]);
    let allowlist = vec!["mid".to_owned()];
    let only = build(BehaviorMode::Default, true, descriptors(), &vec![true, true], Some(&allowlist), &Vec::new());
    assert!(only.tools.is_empty());
    assert!(build(BehaviorMode::Default, false, descriptors(), &vec![true, true], None, &Vec::new()).tools.is_empty());
}

#[test]
fn sandbox_repair_cannot_widen_an_existing_run_snapshot() {
    let mut state = StepWorld { world: world(unavailable_sandbox()) };
    state.narrow_sandbox(&ready_sandbox());
    assert_eq!(state.world.sandbox.readiness, SandboxReadiness::Unavailable);
    assert!(!state.world.sandbox.os_enforced);
    assert!(!state.world.sandbox.filesystem_enforced);
    assert!(!state.world.sandbox.process_enforced);
    assert!(!state.world.sandbox.network_enforced);
    assert_eq!(state.world.context_revision, 1);
}

#[test]
fn degraded_reports_narrow_a_ready_sandbox() {
    let mut state = StepWorld { world: world(ready_sandbox()) };
    let mut degraded = ready_sandbox();
    degraded.readiness = SandboxReadiness::Degraded;
    degraded.network_enforced = false;
    degraded.diagnostics = vec!["network".into()];
    state.narrow_sandbox(&degraded);
    assert_eq!(state.world.sandbox.readiness, SandboxReadiness::Degraded);
    assert!(state.world.sandbox.os_enforced && !state.world.sandbox.network_enforced);
    assert_eq!(state.world.sandbox.diagnostics, vec!["network".to_owned()]);
    assert_eq!(state.world.context_revision, 2);
}

#[test]
fn mcp_schema_or_host_revision_change_advances_context_revision() {
    let mut state = StepWorld { world: world(unavailable_sandbox()) };
    let mut refreshed = world(unavailable_sandbox());
    refreshed.mcp_revision = "schema-and-host-v2".into();
    assert!(state.apply_world_refresh(refreshed));
    assert_eq!(state.world.context_revision, 2);
    assert_eq!(state.world.mcp_revision, "schema-and-host-v2");
    assert!(!state.apply_world_refresh(world(unavailable_sandbox()).with_mcp("schema-and-host-v2")));
    assert_eq!(state.world.context_revision, 2);
}

trait WithMcp {
    fn with_mcp(self, revision: &str) -> Self;
}

impl WithMcp for StepWorldState {
    fn with_mcp(mut self, revision: &str) -> Self {
        self.mcp_revision = revision.into();
        self
    }
}

#[test]
fn sandbox_intersection_keeps_what_both_enforce() {
    let mut a = ready_sandbox();
    a.diagnostics = vec!["b".into(), "a".into()];
    let mut b = ready_sandbox();
    b.process_enforced = false;
    b.stable_error_code = Some("process".into());
    b.diagnostics = vec!["a".into(), "c".into()];
    let joint = intersect_sandbox_reports(&a, &b);
    assert!(!joint.process_enforced && joint.os_enforced);
    assert_eq!(joint.readiness, SandboxReadiness::Degraded);
    assert_eq!(joint.stable_error_code.as_deref(), Some("process"));
    assert_eq!(joint.diagnostics, vec!["a".to_owned(), "b".to_owned(), "c".to_owned()]);
    assert!(same_report(&joint, &intersect_sandbox_reports(&joint, &joint)));
}

#[test]
fn step_revisions_count_up() {
    let mut factory = StepContextFactory::default();
    assert_eq!(factory.next_revision(), 1);
    assert_eq!(factory.next_revision(), 2);
}

#[test]
fn canonical_hash_is_sha256_hex() {
    assert_eq!(canonical_hash(""), "e3b0c44298fc1c149afbf4c8996fb92427ae41e4649b934ca495991b7852b855");
}

fn activation(id: &str, revision: &str) -> SkillActivation {
    SkillActivation { skill_id: id.into(), content_revision: revision.into() }
}

fn snapshot(activations: Vec<SkillActivation>) -> StepRuntimeSnapshot {
    let mut w = world(ready_sandbox());
    w.skill_activations = activations;
    StepRuntimeSnapshot {
        world: w,
        workload: WorkloadResolution {
            workload: WorkloadKind::General,
            source: WorkloadResolutionSource::GeneralFallback,
            activated_skill_ids: Vec::new(),
            reason: "start".into(),
            classifier_revision: None,
        },
    }
}

fn ids(s: &StepRuntimeSnapshot) -> Vec<(String, String)> {
    s.world.skill_activations.iter().map(|a| (a.skill_id.clone(), a.content_revision.clone())).collect()
}

#[test]
fn activating_a_skill_sorts_rehashes_and_switches_the_workload() {
    let mut s = snapshot(vec![activation("zeta", "1"), activation("alpha", "1")]);
    let activated = s.activate_skill(
        activation("docs", "7"),
        WorkloadResolutionSource::BuiltInSkill,
        WorkloadKind::Office,
        "office skill".into(),
        Some("classifier-3".into()),
    );
    assert!(activated);
    assert_eq!(
        ids(&s),
        vec![("alpha".into(), "1".into()), ("docs".into(), "7".into()), ("zeta".into(), "1".into())]
    );
    assert_eq!(s.workload.activated_skill_ids, vec!["alpha".to_string(), "docs".to_string(), "zeta".to_string()]);
    assert_eq!(s.workload.workload, WorkloadKind::Office);
    assert_eq!(s.workload.source, WorkloadResolutionSource::BuiltInSkill);
    assert_eq!(s.workload.reason, "office skill");
    assert_eq!(s.workload.classifier_revision.as_deref(), Some("classifier-3"));
    assert_eq!(s.world.context_revision, 2);
    assert_eq!(s.world.profile_revision, 2);
    let expected = canonical_hash(
        r#"[{"contentRevision":"1","skillId":"alpha"},{"contentRevision":"7","skillId":"docs"},{"contentRevision":"1","skillId":"zeta"}]"#,
    );
    assert_eq!(s.world.skills_revision, expected);
}

#[test]
fn activating_the_same_skill_revision_again_changes_nothing() {
    let mut s = snapshot(vec![activation("docs", "7")]);
    assert!(!s.activate_skill(
        activation("docs", "7"),
        WorkloadResolutionSource::BuiltInSkill,
        WorkloadKind::Office,
        "again".into(),
        None,
    ));
    assert_eq!(s.world.context_revision, 1);
    assert_eq!(s.world.skills_revision, "skills");
    assert_eq!(s.workload.reason, "start");
}

#[test]
fn a_new_revision_of_an_active_skill_is_kept_after_the_older_one() {
    let mut s = snapshot(vec![activation("docs", "7")]);
    assert!(s.activate_skill(
        activation("docs", "8"),
        WorkloadResolutionSource::StructuredClassification,
        WorkloadKind::General,
        "update".into(),
        None,
    ));
    assert_eq!(ids(&s), vec![("docs".into(), "7".into()), ("docs".into(), "8".into())]);
    assert_eq!(s.world.profile_revision, 1);
    assert_eq!(s.world.context_revision, 2);
}

#[test]
fn context_hash_covers_identity_world_and_plan() {
    let id = StepContextIdentity {
        session_id: "s".into(),
        run_id: "r".into(),
        run_generation: 3,
        step_revision: 4,
        registry_revision: "reg".into(),
        entry_profile: EntryProfile::Workbench,
        workload: WorkloadKind::Coding,
        behavior_mode: BehaviorMode::Plan,
        tool_plan_hash: "plan".into(),
    };
    let mut w = world(ready_sandbox());
    w.disabled_tool_names = vec!["shell".into()];
    let expected = canonical_hash(
        r#"[["s","r",3,4],["reg","Workbench","Coding","Plan"],[1,1,"agents","skills","mcp","host"],[["shell"],[],"plan"]]"#,
    );
    assert_eq!(context_hash(&id, &w), expected);
    let first = context_hash(&id, &w);
    w.diagnostics = vec!["late".into()];
    assert_ne!(context_hash(&id, &w), first);
}

#[test]
fn interactive_and_scheduled_origins_share_the_same_semantic_step_and_tool_plan() {
    // The Run's origin is no input of the step identity or of the tool plan, so an interactive
    // and a scheduled Run with the same inputs capture the same step and plan.
    let capture = || {
        let mut factory = StepContextFactory::new();
        let step_revision = factory.next_revision();
        let plan = build(BehaviorMode::Default, true, descriptors(), &vec![true, true], None, &Vec::new());
        let id = StepContextIdentity {
            session_id: "session".into(),
            run_id: "run".into(),
            run_generation: 1,
            step_revision,
            registry_revision: "registry-fixture".into(),
            entry_profile: EntryProfile::Workbench,
            workload: WorkloadKind::Coding,
            behavior_mode: BehaviorMode::Default,
            tool_plan_hash: plan.hash.clone(),
        };
        (context_hash(&id, &world(unavailable_sandbox())), plan)
    };
    let (interactive_hash, interactive_plan) = capture();
    let (scheduled_hash, scheduled_plan) = capture();
    assert_eq!(interactive_hash, scheduled_hash);
    assert_eq!(interactive_plan.hash, scheduled_plan.hash);
    let names = |plan: &ToolPlan| plan.tools.iter().map(|t| t.name.clone()).collect::<Vec<_>>();
    assert_eq!(names(&interactive_plan), names(&scheduled_plan));
}

#[test]
fn tools_of_equal_names_keep_their_registration_order() {
    let tools = vec![
        described("same", "first", ToolEffect::ReadOnly, false),
        described("alpha", "a", ToolEffect::ReadOnly, false),
        described("same", "second", ToolEffect::ReadOnly, false),
    ];
    let plan = build(BehaviorMode::Default, true, tools, &vec![true, true, true], None, &Vec::new());
    let order = plan.tools.iter().map(|t| (t.name.as_str(), t.description.as_str())).collect::<Vec<_>>();
    assert_eq!(order, vec![("alpha", "a"), ("same", "first"), ("same", "second")]);
}
