use hachimi_agent::json::{parse_json, print_json, JsonValue};
use hachimi_agent::patch::{
    apply_patch_descriptor, bounded_model_content, patch_failure, write_baseline_targets, PatchFailureKind,
    MAX_MODEL_RESULT_CHARS,
};
use hachimi_agent::security::ToolEffect;

#[test]
fn descriptor_is_one_non_parallel_workspace_side_effect() {
    let descriptor = apply_patch_descriptor();
    assert_eq!(descriptor.name, "apply_patch");
    assert_eq!(descriptor.effect, ToolEffect::WorkspaceWrite);
    assert!(!descriptor.parallel_safe);
}

#[test]
fn descriptor_schema_requires_only_a_patch_string() {
    let descriptor = apply_patch_descriptor();
    let schema = print_json(&descriptor.input_schema);
    assert_eq!(
        schema,
        r#"{"additionalProperties":false,"properties":{"patch":{"maxLength":4194304,"minLength":1,"type":"string"}},"required":["patch"],"type":"object"}"#
    );
    assert_eq!(descriptor.required_scopes, vec!["workspace.write".to_string()]);
}

#[test]
fn small_patch_results_are_shown_whole() {
    let value = parse_json(r#"{"kind":"patch","changed":["a.rs"]}"#).expect("json");
    assert_eq!(bounded_model_content(&value), r#"{"changed":["a.rs"],"kind":"patch"}"#);
}

#[test]
fn large_patch_results_keep_head_and_tail_around_a_marker() {
    let long = "x".repeat(MAX_MODEL_RESULT_CHARS + 10);
    let value = JsonValue::String(long);
    let content = bounded_model_content(&value);
    let marker = "\n… patch result clipped by host adapter …\n";
    let half = MAX_MODEL_RESULT_CHARS / 2;
    assert_eq!(content.chars().count(), 2 * half + marker.chars().count());
    assert!(content.starts_with("\"xxx"));
    assert!(content.ends_with("xxx\""));
    assert!(content.contains(marker));
    let head: String = content.chars().take(half).collect();
    assert_eq!(head, format!("\"{}", "x".repeat(half - 1)));
}

#[test]
fn moved_paths_capture_their_own_baseline() {
    let moves = vec![("old.rs".to_string(), "new.rs".to_string())];
    let targets = vec!["old.rs".to_string(), "kept.rs".to_string(), "new.rs".to_string(), "other.rs".to_string()];
    assert_eq!(write_baseline_targets(&moves, &targets), vec!["kept.rs".to_string(), "other.rs".to_string()]);
    assert_eq!(write_baseline_targets(&Vec::new(), &targets), targets);
}

#[test]
fn host_failures_map_to_aborted_timed_out_or_failed() {
    let (kind, message) = patch_failure(true, false, "Cancelled", "stopped");
    assert_eq!(kind, PatchFailureKind::Aborted);
    assert_eq!(message, "workspace patch Cancelled: stopped");
    let (kind, message) = patch_failure(false, true, "TimedOut", "slow");
    assert_eq!(kind, PatchFailureKind::TimedOut);
    assert_eq!(message, "workspace patch TimedOut: slow");
    let (kind, _) = patch_failure(false, false, "Conflict", "stale");
    assert_eq!(kind, PatchFailureKind::Failed);
}
