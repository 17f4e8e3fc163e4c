use hachimi_agent::json::JsonValue;
use hachimi_agent::security::{
    authority_resource_summary, descriptor_schema_hash, interactive_extra_authority, parameter_hash,
    recovered_side_effect_result, required_access, resource_summary, side_effect_completion, string_rule_matches,
    structured_authority_decision, workspace_authority_target, workspace_grant_targets, AuthorityContext,
    AuthorityDecision, AuthorityMode, ConnectorRule, FileSystemAccess, McpToolRule, PermissionProfile,
    SideEffectExecutionStatus, ToolDescriptor, ToolEffect, WorkspaceGrantAnswers,
};
use hachimi_agent::tools::{ToolCall, ToolExecutionError, ToolResult, ToolResultStatus};

const OBJECT_SCHEMA_HASH: &str = "a2c799262a3ce3c19ef5cdd983bf3d12b43ab3c426227091b909dcb7054738c0";

fn object(members: Vec<(&str, JsonValue)>) -> JsonValue {
    JsonValue::Object(members.into_iter().map(|(key, value)| (key.to_string(), value)).collect())
}

fn text(value: &str) -> JsonValue {
    JsonValue::String(value.into())
}

fn descriptor_for(name: &str, effect: ToolEffect) -> ToolDescriptor {
    ToolDescriptor {
        name: name.into(),
        description: name.into(),
        input_schema: object(vec![("type", text("object"))]),
        effect,
        parallel_safe: false,
        required_scopes: vec!["connectors.invoke".into()],
    }
}

fn context(mode: AuthorityMode, level: PermissionProfile, host: &str) -> AuthorityContext {
    AuthorityContext {
        level,
        mode,
        capability_host: host.into(),
        workspace_root: "C:/workspace".into(),
        filesystem_rules_scoped: false,
        allowed_commands: Vec::new(),
        mcp_rules: Vec::new(),
        connector_rules: Vec::new(),
    }
}

const GRANTED: WorkspaceGrantAnswers = WorkspaceGrantAnswers { path: true, cwd: true, root: true };

fn denied_code(decision: AuthorityDecision) -> Option<String> {
    match decision {
        AuthorityDecision::Deny { code } => Some(code),
        _ => None,
    }
}

#[test]
fn unattended_mcp_requires_an_exact_policy_rule() {
    let mut context = context(AuthorityMode::Unattended, PermissionProfile::Writable, "mcp:server");
    let exact = descriptor_for("mcp__server__read", ToolEffect::ReadOnly);
    context.mcp_rules.push(McpToolRule {
        server_id: "server".into(),
        exposed_tool_name: "mcp__server__read".into(),
        schema_hash: descriptor_schema_hash(&exact),
        read_only: true,
    });
    let empty = object(Vec::new());
    assert!(matches!(
        structured_authority_decision(&context, &exact, &empty, GRANTED),
        AuthorityDecision::Allow { .. }
    ));
    let mut changed_schema = descriptor_for("mcp__server__read", ToolEffect::ReadOnly);
    changed_schema.input_schema =
        object(vec![("required", JsonValue::Array(vec![text("q")])), ("type", text("object"))]);
    assert!(matches!(
        structured_authority_decision(&context, &changed_schema, &empty, GRANTED),
        AuthorityDecision::Deny { .. }
    ));
    let unknown = descriptor_for("mcp__server__write", ToolEffect::ExternalSideEffect);
    assert_eq!(
        denied_code(structured_authority_decision(&context, &unknown, &empty, GRANTED)),
        Some("mcp_tool_requires_approval".to_owned())
    );
}

#[test]
fn full_access_does_not_require_scoped_mcp_or_connector_rules() {
    let mut context = context(AuthorityMode::Unattended, PermissionProfile::FullAccess, "mcp:server");
    let mcp = descriptor_for("mcp__server__write", ToolEffect::ExternalSideEffect);
    assert!(matches!(
        structured_authority_decision(&context, &mcp, &object(Vec::new()), GRANTED),
        AuthorityDecision::Allow { .. }
    ));
    context.capability_host = "local-host-broker".into();
    let connector = descriptor_for("connector_invoke", ToolEffect::ExternalSideEffect);
    let arguments = object(vec![
        ("accountId", text("account-1")),
        ("action", text("write")),
        ("expectedRevision", object(vec![("actionHash", text("revision-1"))])),
    ]);
    assert!(matches!(
        structured_authority_decision(&context, &connector, &arguments, GRANTED),
        AuthorityDecision::Allow { .. }
    ));
}

#[test]
fn interactive_mcp_and_workspace_paths_use_structured_authority() {
    let context_mcp = context(AuthorityMode::Interactive, PermissionProfile::Writable, "mcp:server");
    let mcp = descriptor_for("mcp__server__read", ToolEffect::ReadOnly);
    assert!(matches!(
        structured_authority_decision(&context_mcp, &mcp, &object(Vec::new()), GRANTED),
        AuthorityDecision::RequireApproval { .. }
    ));
    let workspace_context = context(AuthorityMode::Interactive, PermissionProfile::Writable, "workspace-worker");
    let workspace = descriptor_for("workspace_read_file", ToolEffect::ReadOnly);
    assert_eq!(
        denied_code(structured_authority_decision(
            &workspace_context,
            &workspace,
            &object(vec![("path", text("../outside.txt"))]),
            GRANTED,
        )),
        Some("workspace_path_outside_root".to_owned())
    );
}

#[test]
fn ungranted_workspace_paths_ask_or_deny_by_mode() {
    let no_path = WorkspaceGrantAnswers { path: false, cwd: true, root: true };
    let write = descriptor_for("workspace_write_file", ToolEffect::WorkspaceWrite);
    let arguments = object(vec![("path", text("README.md"))]);
    let interactive = context(AuthorityMode::Interactive, PermissionProfile::Writable, "workspace-worker");
    match structured_authority_decision(&interactive, &write, &arguments, no_path) {
        AuthorityDecision::RequireApproval { effective_effect, code } => {
            assert_eq!(effective_effect, ToolEffect::WorkspaceWrite);
            assert_eq!(code, "workspace_path_requires_approval");
        }
        other => panic!("unexpected decision {other:?}"),
    }
    let unattended = context(AuthorityMode::Unattended, PermissionProfile::Writable, "workspace-worker");
    assert_eq!(
        denied_code(structured_authority_decision(&unattended, &write, &arguments, no_path)),
        Some("workspace_path_requires_approval".to_owned())
    );
    let read_only = context(AuthorityMode::Interactive, PermissionProfile::ReadOnly, "workspace-worker");
    assert_eq!(
        denied_code(structured_authority_decision(&read_only, &write, &arguments, no_path)),
        Some("read_only_authority_cannot_request_write".to_owned())
    );
    let no_root = WorkspaceGrantAnswers { path: true, cwd: true, root: false };
    assert_eq!(
        denied_code(structured_authority_decision(&interactive, &write, &object(Vec::new()), no_root)),
        Some("workspace_path_not_authorized".to_owned())
    );
}

#[test]
fn process_commands_follow_the_allowed_list() {
    let mut interactive = context(AuthorityMode::Interactive, PermissionProfile::Writable, "workspace-worker");
    interactive.allowed_commands = vec!["git".into(), "cargo*".into()];
    let exec = descriptor_for("workspace_exec", ToolEffect::Process);
    let allowed = object(vec![("program", text("Cargo-nextest"))]);
    assert!(matches!(
        structured_authority_decision(&interactive, &exec, &allowed, GRANTED),
        AuthorityDecision::Allow { .. }
    ));
    let other = object(vec![("program", text("curl"))]);
    assert!(matches!(
        structured_authority_decision(&interactive, &exec, &other, GRANTED),
        AuthorityDecision::RequireApproval { .. }
    ));
    assert_eq!(
        denied_code(structured_authority_decision(&interactive, &exec, &object(Vec::new()), GRANTED)),
        Some("process_program_missing".to_owned())
    );
    interactive.filesystem_rules_scoped = true;
    assert_eq!(
        denied_code(structured_authority_decision(&interactive, &exec, &allowed, GRANTED)),
        Some("process_filesystem_scope_not_os_enforceable".to_owned())
    );
}

#[test]
fn connector_actions_need_a_matching_rule() {
    let mut unattended = context(AuthorityMode::Unattended, PermissionProfile::Writable, "local-host-broker");
    unattended.connector_rules.push(ConnectorRule {
        account_id: "account-1".into(),
        actions: vec!["write".into()],
        read_only_actions: Vec::new(),
        contribution_revision: "revision-1".into(),
    });
    let connector = descriptor_for("connector_invoke", ToolEffect::ExternalSideEffect);
    let matching = object(vec![
        ("accountId", text("account-1")),
        ("action", text("write")),
        ("expectedRevision", object(vec![("actionHash", text("revision-1"))])),
    ]);
    assert!(matches!(
        structured_authority_decision(&unattended, &connector, &matching, GRANTED),
        AuthorityDecision::Allow { .. }
    ));
    let stale = object(vec![
        ("accountId", text("account-1")),
        ("action", text("write")),
        ("expectedRevision", object(vec![("actionHash", text("revision-0"))])),
    ]);
    assert!(matches!(
        structured_authority_decision(&unattended, &connector, &stale, GRANTED),
        AuthorityDecision::Deny { .. }
    ));
}

#[test]
fn command_rules_match_by_case_and_prefix() {
    assert!(string_rule_matches("*", "anything"));
    assert!(string_rule_matches("Git", "git"));
    assert!(string_rule_matches("car*", "CARGO"));
    assert!(!string_rule_matches("git", "gitk"));
    assert!(!string_rule_matches("", "git"));
}

#[test]
fn workspace_targets_resolve_under_the_root() {
    assert_eq!(workspace_authority_target("C:/ws", ""), Some("C:/ws".to_owned()));
    assert_eq!(workspace_authority_target("C:/ws", "src/a.rs"), Some("C:/ws\\src/a.rs".to_owned()));
    assert_eq!(workspace_authority_target("C:/ws/", "a.rs"), Some("C:/ws/a.rs".to_owned()));
    assert_eq!(workspace_authority_target("C:/ws", "/abs/a.rs"), None);
    assert_eq!(workspace_authority_target("C:/ws", "D:/abs/a.rs"), Some("D:/abs/a.rs".to_owned()));
    assert_eq!(workspace_authority_target("C:/ws", "../a.rs"), None);
    assert_eq!(workspace_authority_target("C:/ws", "/abs/../a.rs"), None);
    assert_eq!(workspace_authority_target("C:/ws", "D:a.rs"), None);
    assert_eq!(workspace_authority_target("C:/ws", "a%2e.rs"), None);
}

#[test]
fn windows_paths_are_absolute_on_a_drive_and_climb_through_backslashes() {
    assert_eq!(workspace_authority_target("C:\\ws", "D:\\a.rs"), Some("D:\\a.rs".to_owned()));
    assert_eq!(workspace_authority_target("C:\\ws", "D:/a.rs"), Some("D:/a.rs".to_owned()));
    assert_eq!(workspace_authority_target("C:\\ws", "..\\a.rs"), None);
    assert_eq!(workspace_authority_target("C:\\ws", "src\\..\\..\\a.rs"), None);
    assert_eq!(workspace_authority_target("C:\\ws", "C:\\ws\\..\\x"), None);
    assert_eq!(workspace_authority_target("C:\\ws", "\\x"), None);
    assert_eq!(workspace_authority_target("C:\\ws", "src\\a.rs"), Some("C:\\ws\\src\\a.rs".to_owned()));
    assert_eq!(workspace_authority_target("C:\\ws\\", "a.rs"), Some("C:\\ws\\a.rs".to_owned()));
    assert_eq!(workspace_authority_target("C:", "a.rs"), Some("C:a.rs".to_owned()));
    assert_eq!(workspace_authority_target("C:\\ws", "/x"), None);
}

#[test]
fn grant_targets_name_the_path_cwd_and_root() {
    let context = context(AuthorityMode::Interactive, PermissionProfile::Writable, "workspace-worker");
    let write = descriptor_for("workspace_write_file", ToolEffect::WorkspaceWrite);
    let (access, path, cwd, root) =
        workspace_grant_targets(&context, &write, &object(vec![("path", text("a.txt")), ("cwd", text("../x"))]));
    assert_eq!(access, FileSystemAccess::Write);
    assert_eq!(path, Some("C:/workspace\\a.txt".to_owned()));
    assert_eq!(cwd, None);
    assert_eq!(root, "C:/workspace");
    assert_eq!(required_access(ToolEffect::BrowserObserve), FileSystemAccess::Read);
    assert_eq!(required_access(ToolEffect::Process), FileSystemAccess::Write);
}

#[test]
fn extra_authority_depends_on_mode_and_level() {
    let interactive = context(AuthorityMode::Interactive, PermissionProfile::ReadOnly, "x");
    assert!(matches!(
        interactive_extra_authority(&interactive, ToolEffect::BrowserObserve, "ask"),
        AuthorityDecision::RequireApproval { .. }
    ));
    assert_eq!(
        denied_code(interactive_extra_authority(&interactive, ToolEffect::BrowserAct, "ask")),
        Some("read_only_authority_cannot_request_write".to_owned())
    );
    let unattended = context(AuthorityMode::Unattended, PermissionProfile::Writable, "x");
    assert_eq!(denied_code(interactive_extra_authority(&unattended, ToolEffect::ReadOnly, "ask")), Some("ask".into()));
}

#[test]
fn hashes_are_sha256_of_the_compact_json() {
    let descriptor = descriptor_for("t", ToolEffect::ReadOnly);
    assert_eq!(descriptor_schema_hash(&descriptor), OBJECT_SCHEMA_HASH);
    assert_eq!(
        parameter_hash(&object(vec![("path", text("README.md"))])),
        "7d6441497d2a000b8143602a7817c90abe7db88e139f89c062a1c36cfe0ad9d6"
    );
}

#[test]
fn resource_summaries_name_what_a_call_touches() {
    assert_eq!(resource_summary(&object(vec![("cwd", text("src")), ("program", text("git"))])), "git");
    assert_eq!(resource_summary(&object(vec![("path", text(""))])), "workspace-checkout");
    let mcp_context = context(AuthorityMode::Interactive, PermissionProfile::Writable, "mcp:server");
    let descriptor = descriptor_for("mcp__server__read", ToolEffect::ReadOnly);
    assert_eq!(
        authority_resource_summary(&mcp_context, &descriptor, &object(Vec::new())),
        format!("mcp:server:tool:mcp__server__read:schema:{OBJECT_SCHEMA_HASH}")
    );
    let broker = context(AuthorityMode::Interactive, PermissionProfile::Writable, "local-host-broker");
    let connector = descriptor_for("connector_invoke", ToolEffect::ExternalSideEffect);
    assert_eq!(
        authority_resource_summary(&broker, &connector, &object(vec![("accountId", text("a1"))])),
        "connector:a1:action:missing:revision:missing"
    );
}

#[test]
fn completed_side_effects_keep_a_bounded_record() {
    let result = ToolResult {
        call_id: "c".into(),
        tool_name: "t".into(),
        status: ToolResultStatus::TimedOut,
        model_content: "slow".into(),
        structured_content: object(vec![("redactForPersistence", JsonValue::Bool(true))]),
    };
    let (status, code, record) = side_effect_completion(&Ok(result));
    assert_eq!(status, SideEffectExecutionStatus::Failed);
    assert_eq!(code, "timed_out");
    let Some(JsonValue::Object(members)) = record else { panic!("object record expected") };
    assert_eq!(members.len(), 2);
    assert_eq!(members[0].0, "modelContent");
    assert!(matches!(&members[0].1, JsonValue::String(content) if content == "slow"));
    assert_eq!(members[1].0, "structuredContent");
    assert!(matches!(&members[1].1, JsonValue::Object(inner) if inner.len() == 1 && inner[0].0 == "truncatedOrRedacted"));
    let (status, code, record) = side_effect_completion(&Err(ToolExecutionError::Failed("lost".into())));
    assert_eq!(status, SideEffectExecutionStatus::Indeterminate);
    assert_eq!(code, "executor_error_after_dispatch");
    assert!(record.is_none());
}

#[test]
fn recovered_results_are_never_replayed() {
    let call = ToolCall { id: "call-1".into(), name: "connector_invoke".into(), arguments: object(Vec::new()) };
    let recovered = recovered_side_effect_result(&call, true, None);
    assert_eq!(recovered.call_id, "call-1");
    assert_eq!(recovered.status, ToolResultStatus::Succeeded);
    assert_eq!(recovered.model_content, "the external operation was already completed before recovery");
    assert!(matches!(&recovered.structured_content, JsonValue::Object(m) if m.len() == 2 && m[1].0 == "replayed"));
    let persisted = object(vec![("modelContent", text("done earlier"))]);
    let failed = recovered_side_effect_result(&call, false, Some(persisted));
    assert_eq!(failed.status, ToolResultStatus::Failed);
    assert_eq!(failed.model_content, "done earlier");
}
