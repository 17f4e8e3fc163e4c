use hachimi_agent::delegation::{
    child_task_lineage, plan_child, child_budget, failed, intersect_names, intersect_skills, narrow_grants, optional_string, optional_u32,
    required_string, string_array, BrowserGrant, CapabilityGrantSet, ComputerGrant, FileSystemGrant, NetworkGrant,
    PermissionGrantScope, ProcessGrant, RunBudget,
};
use hachimi_agent::json::JsonValue;
use hachimi_agent::security::{FileSystemAccess, PermissionProfile};
use hachimi_agent::tools::ToolExecutionError;

fn names(values: &[&str]) -> Vec<String> {
    values.iter().map(|value| value.to_string()).collect()
}

fn parent_grants() -> CapabilityGrantSet {
    CapabilityGrantSet {
        profile: PermissionProfile::Writable,
        scope: PermissionGrantScope::Run,
        session_id: "parent-session".into(),
        run_id: Some("parent-run".into()),
        source: "parent".into(),
        file_system: vec![FileSystemGrant {
            access: FileSystemAccess::Write,
            roots: names(&["C:\\workspace"]),
            globs: Vec::new(),
            files: Vec::new(),
            special_roots: Vec::new(),
        }],
        network: NetworkGrant {
            enabled: true,
            hosts: names(&["example.test"]),
            protocols: names(&["https"]),
            unrestricted_hosts: false,
        },
        process: ProcessGrant {
            spawn: true,
            interactive: true,
            allowed_commands: names(&["git"]),
            unrestricted_commands: false,
        },
        browser: BrowserGrant {
            observe: true,
            act: true,
            upload: true,
            download: true,
            cookie_storage: true,
            cdp: true,
            origins: names(&["https://example.test"]),
            unrestricted_origins: false,
        },
        computer: ComputerGrant {
            observe: true,
            act: true,
            allowed_applications: names(&["editor"]),
            unrestricted_targets: false,
            max_actions: Some(4),
        },
        review_each_command: false,
        expires_at_ms: Some(42),
    }
}

fn object(members: Vec<(&str, JsonValue)>) -> JsonValue {
    JsonValue::Object(members.into_iter().map(|(key, value)| (key.to_string(), value)).collect())
}

fn budget() -> RunBudget {
    RunBudget {
        max_model_requests: 40,
        max_tool_calls: 100,
        max_parallel_read_tools: 8,
        model_timeout_ms: 1_000,
        tool_timeout_ms: 2_000,
    }
}

fn failure(error: ToolExecutionError) -> String {
    match error {
        ToolExecutionError::Failed(message) => message,
    }
}

#[test]
fn child_allowlists_are_monotonic_intersections() {
    let parent = names(&["workspace.read", "browser.observe"]);
    let requested = names(&["browser.observe", "computer.act"]);
    assert_eq!(intersect_names(Some(&parent), Some(&requested)), Some(names(&["browser.observe"])));
    assert_eq!(intersect_names(Some(&parent), None), Some(parent.clone()));

    let skills = names(&["safe", "coding"]);
    assert_eq!(intersect_skills(&skills, Some(&names(&["coding", "missing"]))), names(&["coding"]));
}

#[test]
fn read_only_child_grants_remove_every_mutating_authority() {
    let parent = parent_grants();
    let child = narrow_grants(&parent, "child-session", "child-run", PermissionProfile::ReadOnly);
    assert_eq!(child.file_system[0].access, FileSystemAccess::Read);
    assert!(!child.process.spawn && !child.process.interactive);
    assert!(child.browser.observe && !child.browser.act && !child.browser.cdp);
    assert!(child.computer.observe && !child.computer.act);
    assert!(child.network.enabled, "read-only network scope stays bounded by parent");
    assert_eq!(child.profile, PermissionProfile::ReadOnly);
    assert_eq!(child.scope, PermissionGrantScope::Run);
    assert_eq!(child.run_id, Some("child-run".to_owned()));
    assert_eq!(child.source, "multi_agent_parent:parent-run");
    assert_eq!(child.session_id, "child-session");
}

#[test]
fn writable_child_keeps_the_parent_authority() {
    let parent = parent_grants();
    let child = narrow_grants(&parent, "child-session", "child-run", PermissionProfile::Writable);
    assert_eq!(child.file_system[0].access, FileSystemAccess::Write);
    assert!(child.process.spawn && child.browser.act && child.computer.act);
    assert_eq!(child.process.allowed_commands, names(&["git"]));
    assert_eq!(child.expires_at_ms, Some(42));
}

#[test]
fn names_without_a_parent_list_are_the_requested_ones() {
    assert_eq!(intersect_names(None, None), None);
    assert_eq!(intersect_names(None, Some(&names(&["a"]))), Some(names(&["a"])));
    assert_eq!(intersect_skills(&names(&["a", "b"]), None), names(&["a", "b"]));
}

#[test]
fn child_budget_defaults_to_a_quarter_of_the_parent() {
    let child = child_budget(&budget(), &object(Vec::new())).expect("budget");
    assert_eq!(child.max_model_requests, 10);
    assert_eq!(child.max_tool_calls, 25);
    assert_eq!(child.max_parallel_read_tools, 4);
    assert_eq!(child.model_timeout_ms, 1_000);
    assert_eq!(child.tool_timeout_ms, 2_000);
    let small = RunBudget { max_model_requests: 2, max_tool_calls: 3, ..budget() };
    let child = child_budget(&small, &object(Vec::new())).expect("budget");
    assert_eq!((child.max_model_requests, child.max_tool_calls), (1, 1));
}

#[test]
fn child_budget_cannot_exceed_the_parent() {
    let arguments = object(vec![("maxModelRequests", JsonValue::Number("41".into()))]);
    assert_eq!(
        failure(child_budget(&budget(), &arguments).unwrap_err()),
        "child budget must be positive and no larger than the parent budget"
    );
    let arguments = object(vec![("maxToolCalls", JsonValue::String("many".into()))]);
    assert_eq!(failure(child_budget(&budget(), &arguments).unwrap_err()), "maxToolCalls must be a positive integer");
    let arguments = object(vec![("maxModelRequests", JsonValue::Number("40".into()))]);
    assert_eq!(child_budget(&budget(), &arguments).expect("budget").max_model_requests, 40);
}

#[test]
fn argument_readers_report_typed_errors() {
    let arguments = object(vec![
        ("count", JsonValue::Number("7".into())),
        ("empty", JsonValue::String("   ".into())),
        ("flag", JsonValue::Bool(true)),
        ("list", JsonValue::Array(vec![JsonValue::String("x".into())])),
        ("mixed", JsonValue::Array(vec![JsonValue::Bool(false)])),
        ("name", JsonValue::String("  worker  ".into())),
    ]);
    assert_eq!(optional_u32(&arguments, "count").expect("count"), Some(7));
    assert_eq!(optional_u32(&arguments, "missing").expect("missing"), None);
    assert_eq!(required_string(&arguments, "name", 64).expect("name"), "worker");
    assert_eq!(failure(required_string(&arguments, "empty", 64).unwrap_err()), "empty is required");
    assert_eq!(failure(required_string(&arguments, "name", 3).unwrap_err()), "name is too long");
    assert_eq!(failure(optional_string(&arguments, "flag").unwrap_err()), "flag must be a string");
    assert_eq!(optional_string(&arguments, "absent").expect("absent"), None);
    assert_eq!(string_array(&arguments, "list").expect("list"), Some(names(&["x"])));
    assert_eq!(failure(string_array(&arguments, "mixed").unwrap_err()), "mixed must contain strings");
    assert_eq!(failure(string_array(&arguments, "name").unwrap_err()), "name must be an array");
}

#[test]
fn failed_carries_its_message() {
    assert_eq!(failure(failed("boom")), "boom");
}

#[test]
fn spawn_requests_are_planned_within_the_parent() {
    let parent_tools = names(&["workspace.read", "browser.observe"]);
    let parent_skills = names(&["safe", "coding"]);
    let arguments = object(vec![
        ("maxToolCalls", JsonValue::Number("10".into())),
        ("permissionProfile", JsonValue::String("inherit".into())),
        ("prompt", JsonValue::String(" review the diff ".into())),
        ("skillIds", JsonValue::Array(vec![JsonValue::String("coding".into())])),
        ("title", JsonValue::String("Review".into())),
        ("toolAllowlist", JsonValue::Array(vec![JsonValue::String("browser.observe".into()), JsonValue::String("computer.act".into())])),
    ]);
    let plan = plan_child(&arguments, PermissionProfile::Writable, &budget(), Some(&parent_tools), &parent_skills)
        .expect("plan");
    assert_eq!(plan.title, "Review");
    assert_eq!(plan.prompt, "review the diff");
    assert_eq!(plan.permission_profile, PermissionProfile::Writable);
    assert_eq!(plan.budget.max_tool_calls, 10);
    assert_eq!(plan.budget.max_model_requests, 10);
    assert_eq!(plan.tool_allowlist, Some(names(&["browser.observe"])));
    assert_eq!(plan.skill_allowlist, names(&["coding"]));
    let minimal = object(vec![("prompt", JsonValue::String("p".into())), ("title", JsonValue::String("t".into()))]);
    let plan = plan_child(&minimal, PermissionProfile::Writable, &budget(), None, &parent_skills).expect("plan");
    assert_eq!(plan.permission_profile, PermissionProfile::ReadOnly);
    assert_eq!(plan.tool_allowlist, None);
    assert_eq!(plan.skill_allowlist, parent_skills);
}

#[test]
fn spawn_requests_report_the_first_bad_argument() {
    let skills = names(&[]);
    let no_title = object(vec![("prompt", JsonValue::String("p".into()))]);
    assert_eq!(failure(plan_child(&no_title, PermissionProfile::ReadOnly, &budget(), None, &skills).unwrap_err()), "title is required");
    let bad_profile = object(vec![
        ("permissionProfile", JsonValue::String("full_access".into())),
        ("prompt", JsonValue::String("p".into())),
        ("title", JsonValue::String("t".into())),
    ]);
    assert_eq!(
        failure(plan_child(&bad_profile, PermissionProfile::ReadOnly, &budget(), None, &skills).unwrap_err()),
        "permissionProfile must be read_only or inherit"
    );
    let too_big = object(vec![
        ("maxModelRequests", JsonValue::Number("1000".into())),
        ("prompt", JsonValue::String("p".into())),
        ("title", JsonValue::String("t".into())),
    ]);
    assert_eq!(
        failure(plan_child(&too_big, PermissionProfile::ReadOnly, &budget(), None, &skills).unwrap_err()),
        "child budget must be positive and no larger than the parent budget"
    );
}

#[test]
fn child_tasks_join_their_parent_tree() {
    assert_eq!(child_task_lineage("task-2", Some(("task-root", "run-root")), "run-1", 1), ("task-root".into(), "run-root".into(), 2));
    assert_eq!(child_task_lineage("task-2", None, "run-1", 0), ("task-2".into(), "run-1".into(), 1));
    assert_eq!(child_task_lineage("t", None, "r", u32::MAX).2, u32::MAX);
}
