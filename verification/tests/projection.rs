use hachimi_agent::json::{parse_json, print_json, JsonValue};
use hachimi_agent::projection::{
    plan_update_message, validate_plan_update, PlanStepStatus, evidence_artifact, persisted_tool_result, plan_steps, transcript_tool_arguments, unavailable_world_state,
    EvidenceKind,
};
use hachimi_agent::step::SandboxReadiness;
use hachimi_agent::tools::{ToolCall, ToolResult, ToolResultStatus};

fn json(text: &str) -> JsonValue {
    parse_json(text).expect("valid JSON")
}

fn result(call_id: &str, tool_name: &str, model_content: &str, structured: &str) -> ToolResult {
    ToolResult {
        call_id: call_id.into(),
        tool_name: tool_name.into(),
        status: ToolResultStatus::Succeeded,
        model_content: model_content.into(),
        structured_content: json(structured),
    }
}

fn call(id: &str, name: &str, arguments: &str) -> ToolCall {
    ToolCall { id: id.into(), name: name.into(), arguments: json(arguments) }
}

fn check_redaction() {
    let secret = "secret-that-must-not-be-persisted";
    let result = result(
        "input-call",
        "request_user_input",
        &format!("{{\"answers\":[{{\"answer\":\"{secret}\"}}]}}"),
        r#"{"requestId":"request-1","answerCount":1,"containsSecret":true,"redactForPersistence":true}"#,
    );
    let (content, structured) = persisted_tool_result(&result);
    assert!(!content.contains(secret));
    let printed = print_json(&structured);
    assert!(!printed.contains(secret));
    assert_eq!(printed, r#"{"answerCount":1,"redacted":true,"requestId":"request-1"}"#);
}

fn check_images() {
    let marker = "sensitive-image-base64";
    let result = result("computer-call", "computer_observe", "Computer frame attached ephemerally", r#"{"frameId":"frame-1"}"#);
    let (content, structured) = persisted_tool_result(&result);
    assert!(!content.contains(marker));
    let printed = print_json(&structured);
    assert!(!printed.contains(marker));
    assert_eq!(printed, r#"{"frameId":"frame-1"}"#);
}

#[test]
fn run_projection_user_input_tool_results_are_redacted_before_transcript_projection() {
    check_redaction();
}

#[test]
fn run_projection_tests_user_input_tool_results_are_redacted_before_transcript_projection() {
    check_redaction();
}

#[test]
fn run_projection_ephemeral_model_images_are_never_projected_to_persistence() {
    check_images();
}

#[test]
fn run_projection_tests_ephemeral_model_images_are_never_projected_to_persistence() {
    check_images();
}

#[test]
fn redacted_results_without_a_request_keep_null() {
    let (content, structured) =
        persisted_tool_result(&result("c", "t", "answers", r#"{"redactForPersistence":true}"#));
    assert_eq!(content, "[user input delivered to the active executor; answers were not persisted]");
    assert_eq!(print_json(&structured), r#"{"answerCount":0,"redacted":true,"requestId":null}"#);
}

#[test]
fn written_contents_are_kept_only_by_size_and_digest() {
    let write = call(
        "call-write",
        "workspace_write_file",
        r#"{"path":"secret.txt","content":"sensitive contents","expectedSha256":null}"#,
    );
    let printed = print_json(&transcript_tool_arguments(&write));
    assert!(!printed.contains("sensitive contents"));
    assert!(printed.starts_with(r#"{"contentBytes":18,"contentSha256":""#));
    assert!(printed.ends_with(r#"","expectedSha256":null,"path":"secret.txt"}"#));
    let replace = call("r", "workspace_replace_text", r#"{"path":"a","oldText":"é","newText":"x","replaceAll":true}"#);
    let printed = print_json(&transcript_tool_arguments(&replace));
    assert!(printed.contains(r#""oldTextBytes":2"#));
    assert!(printed.contains(r#""newTextBytes":1"#));
    assert!(printed.contains(r#""replaceAll":true"#));
    let exec = call("e", "workspace_exec", r#"{"program":"cargo","args":["test","-q"],"cwd":"."}"#);
    assert_eq!(
        print_json(&transcript_tool_arguments(&exec)),
        r#"{"argumentCount":2,"cwd":".","program":"cargo","timeoutMs":null}"#
    );
    let other = call("o", "workspace_read_file", r#"{"path":"a"}"#);
    assert_eq!(print_json(&transcript_tool_arguments(&other)), r#"{"path":"a"}"#);
}

#[test]
fn plan_lines_become_steps() {
    let steps = plan_steps("# Plan\n\n- 1. Read the code\n* 2) Fix it\n  3. Test  \n-\n## Done\n");
    assert_eq!(steps, vec!["Read the code".to_owned(), "Fix it".to_owned(), "Test".to_owned()]);
    let many = (0..200).map(|i| format!("- step {i}\n")).collect::<String>();
    let steps = plan_steps(&many);
    assert_eq!(steps.len(), 128);
    assert_eq!(steps[127], "step 127");
    assert_eq!(plan_steps(&format!("- {}", "x".repeat(3000)))[0].len(), 2000);
}

#[test]
fn command_and_diff_results_become_bounded_evidence() {
    let mut exec = result(
        "call-exec",
        "workspace_exec",
        "done",
        r#"{"type":"process","exitCode":0,"stdout":"tests passed","stderr":"","truncated":false}"#,
    );
    exec.status = ToolResultStatus::Succeeded;
    let exec_call = call("call-exec", "workspace_exec", r#"{"program":"cargo","args":["test"],"cwd":"."}"#);
    let artifact = evidence_artifact("run-1", &exec, Some(&exec_call)).expect("command evidence");
    assert_eq!(artifact.run_id, "run-1");
    assert_eq!(artifact.kind, EvidenceKind::CommandEvidence);
    assert_eq!(artifact.display_name, "cargo");
    assert_eq!(artifact.content_hash.len(), 64);
    assert_eq!(
        print_json(&artifact.metadata),
        r#"{"argumentCount":1,"cwd":".","exitCode":0,"program":"cargo","status":"succeeded","stderrBytes":0,"stdoutBytes":12,"toolCallId":"call-exec","truncated":false}"#
    );
    let diff = result("call-diff", "workspace_git_diff", "fallback", r#"{"stdout":"+changed\n","exit_code":1}"#);
    let artifact = evidence_artifact("run-1", &diff, None).expect("diff evidence");
    assert_eq!(artifact.kind, EvidenceKind::DiffEvidence);
    assert_eq!(artifact.display_name, "Workspace diff");
    assert_eq!(
        print_json(&artifact.metadata),
        r#"{"byteSize":9,"exitCode":1,"lineCount":1,"status":"succeeded","toolCallId":"call-diff","truncated":false}"#
    );
    let without_call = evidence_artifact("run-1", &exec, None).expect("command evidence");
    assert_eq!(without_call.display_name, "command");
    assert!(evidence_artifact("run-1", &result("w", "workspace_write_file", "", "{}"), None).is_none());
}

#[test]
fn unavailable_worlds_enforce_nothing() {
    let world = unavailable_world_state(None);
    assert_eq!(world.host_revision, "not_supplied");
    assert_eq!(world.sandbox.readiness, SandboxReadiness::Unavailable);
    assert!(!world.sandbox.os_enforced);
    assert_eq!(unavailable_world_state(Some("desk-1")).host_revision, "desk-1");
}

#[test]
fn plan_updates_allow_at_most_one_step_in_progress() {
    let plan = vec![
        ("  Read  ".to_owned(), PlanStepStatus::Completed),
        ("Fix".to_owned(), PlanStepStatus::InProgress),
        ("Test".to_owned(), PlanStepStatus::Pending),
    ];
    let steps = validate_plan_update(&plan).expect("accepted");
    assert_eq!(steps[0], ("Read".to_owned(), PlanStepStatus::Completed));
    assert_eq!(steps.len(), 3);
    let two = vec![("a".to_owned(), PlanStepStatus::InProgress), ("b".to_owned(), PlanStepStatus::InProgress)];
    let error = validate_plan_update(&two).unwrap_err();
    assert_eq!(error.message(), "tool execution failed: plan must contain steps and at most one in-progress step");
    assert!(validate_plan_update(&Vec::new()).is_err());
    assert_eq!(plan_update_message(3), "Updated plan with 3 steps.");
}
