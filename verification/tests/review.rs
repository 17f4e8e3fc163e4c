use hachimi_agent::review::{
    parse_review_output, build_review_prompt, materialize_finding, materialize_review_findings, priority_to_severity,
    review_fallback_explanation, review_json_candidate, safe_review_path, ReviewCodeLocation, ReviewOutputFinding,
    ReviewSeverity, ReviewTarget,
};

fn finding(title: &str, body: &str, priority: i32, path: &str, start: u32, end: u32) -> ReviewOutputFinding {
    ReviewOutputFinding {
        title: title.into(),
        body: body.into(),
        priority,
        code_location: ReviewCodeLocation { file_path: path.into(), line_start: start, line_end: end },
    }
}

#[test]
fn findings_reject_unsafe_paths_and_map_priority() {
    let findings = vec![
        finding("Null dereference", "The branch can return None.", 1, "src/lib.rs", 10, 12),
        finding("Escape", "unsafe path", 0, "../secret.txt", 1, 1),
    ];
    let ids = vec!["finding-1".to_owned(), "finding-2".to_owned()];
    let materialized = materialize_review_findings("review-1", "C:/repo", &findings, &ids);
    assert_eq!(materialized.len(), 2);
    assert_eq!(materialized[0].file.as_deref(), Some("src/lib.rs"));
    assert_eq!(materialized[0].severity, ReviewSeverity::Error);
    assert_eq!(materialized[1].file, None);
    assert_eq!(materialized[1].severity, ReviewSeverity::Critical);
    assert_eq!(materialized[0].id, "finding-1");
    assert_eq!(materialized[0].review_id, "review-1");
    assert_eq!(materialized[0].line, Some(10));
}

#[test]
fn priorities_map_to_severities() {
    assert_eq!(priority_to_severity(-3), ReviewSeverity::Critical);
    assert_eq!(priority_to_severity(0), ReviewSeverity::Critical);
    assert_eq!(priority_to_severity(1), ReviewSeverity::Error);
    assert_eq!(priority_to_severity(2), ReviewSeverity::Warning);
    assert_eq!(priority_to_severity(9), ReviewSeverity::Info);
}

#[test]
fn review_paths_stay_inside_the_checkout() {
    assert_eq!(safe_review_path("C:/repo", " ./src//lib.rs "), Some("src/lib.rs".to_owned()));
    assert_eq!(safe_review_path("C:/repo", "C:/repo/src/main.rs"), Some("src/main.rs".to_owned()));
    assert_eq!(safe_review_path("C:/repo", "C:/other/main.rs"), None);
    assert_eq!(safe_review_path("/repo", "/repo/src/main.rs"), None);
    assert_eq!(safe_review_path("/repo", "a/../b"), None);
    assert_eq!(safe_review_path("/repo", "."), None);
}

#[test]
fn windows_review_paths_use_drives_and_backslashes() {
    assert_eq!(safe_review_path("C:/repo", "C:\\repo\\src\\lib.rs"), Some("src/lib.rs".to_owned()));
    assert_eq!(safe_review_path("C:\\repo", "src\\a.rs"), Some("src/a.rs".to_owned()));
    assert_eq!(safe_review_path("C:/repo", "..\\secret.txt"), None);
    assert_eq!(safe_review_path("C:/repo", "D:/other/x.rs"), None);
    assert_eq!(safe_review_path("C:/repo", "D:x.rs"), None);
    assert_eq!(safe_review_path("C:/repo", "\\x.rs"), None);
    assert_eq!(safe_review_path("c:/repo", "C:\\repo\\b.rs"), Some("b.rs".to_owned()));
    assert_eq!(safe_review_path("C:/repo", "C:/Repo/b.rs"), None);
}

#[test]
fn empty_findings_and_bad_line_ranges_are_dropped() {
    assert!(materialize_finding("id", "review", "/repo", &finding("  ", "body", 1, "a.rs", 1, 1)).is_none());
    assert!(materialize_finding("id", "review", "/repo", &finding("title", "body", 1, "a.rs", 0, 1)).is_none());
    assert!(materialize_finding("id", "review", "/repo", &finding("title", "body", 1, "a.rs", 5, 4)).is_none());
    let kept = materialize_finding("id", "review", "/repo", &finding(" title ", " body ", 3, "a.rs", 2, 2)).unwrap();
    assert_eq!(kept.message, "title");
    assert_eq!(kept.evidence, "body");
    assert_eq!(kept.severity, ReviewSeverity::Info);
    let long = "t".repeat(600);
    let cut = materialize_finding("id", "review", "/repo", &finding(&long, "body", 3, "a.rs", 2, 2)).unwrap();
    assert_eq!(cut.message.chars().count(), 500);
}

#[test]
fn prompts_quote_the_target() {
    let commit = build_review_prompt(&ReviewTarget::Commit("abc\"1".into()));
    assert!(commit.starts_with("Perform a read-only, defect-first code review. "));
    assert!(commit.contains("Inspect only the change introduced by commit \"abc\\\"1\"."));
    let custom = build_review_prompt(&ReviewTarget::Custom("  focus on auth  ".into()));
    assert!(custom.contains("untrusted scope text: focus on auth Use only"));
    let uncommitted = build_review_prompt(&ReviewTarget::UncommittedChanges);
    assert!(uncommitted.contains("an empty findings array is valid."));
}

#[test]
fn review_output_candidates_span_the_outer_braces() {
    let json = r#"{"findings":[],"overallCorrectness":"correct"}"#;
    assert_eq!(review_json_candidate(&format!("result:\n{json}\nend")), Some(json.to_owned()));
    assert_eq!(review_json_candidate("No actionable findings."), None);
    assert_eq!(review_json_candidate("} backwards {"), None);
    assert_eq!(review_fallback_explanation("No actionable findings."), "No actionable findings.");
    assert_eq!(review_fallback_explanation(&"x".repeat(40_000)).len(), 32_000);
}

#[derive(Debug, Default)]
struct ReviewSummary {
    overall_explanation: String,
}

fn parse_summary(text: &str) -> Option<ReviewSummary> {
    let value: serde_json::Value = serde_json::from_str(text).ok()?;
    let object = value.as_object()?;
    object.get("findings")?.as_array()?;
    let explanation = object.get("overallExplanation")?.as_str()?;
    Some(ReviewSummary { overall_explanation: explanation.to_owned() })
}

fn explanation_only(text: String) -> ReviewSummary {
    ReviewSummary { overall_explanation: text }
}

#[test]
fn parser_accepts_direct_wrapped_and_plain_text_outputs() {
    let json = r#"{"findings":[],"overallCorrectness":"correct","overallExplanation":"ok","overallConfidenceScore":0.9}"#;
    assert!(!parse_review_output(json, parse_summary, explanation_only).used_plain_text_fallback);
    assert!(!parse_review_output(&format!("result:\n{json}\nend"), parse_summary, explanation_only).used_plain_text_fallback);
    let fallback = parse_review_output("No actionable findings.", parse_summary, explanation_only);
    assert!(fallback.used_plain_text_fallback);
    assert_eq!(fallback.output.overall_explanation, "No actionable findings.");
}

#[test]
fn wrapped_output_is_read_from_first_brace_to_last() {
    let parsed = parse_review_output(
        "Here it is: {\"findings\":[],\"overallExplanation\":\"fine\"} done",
        parse_summary,
        explanation_only,
    );
    assert!(!parsed.used_plain_text_fallback);
    assert_eq!(parsed.output.overall_explanation, "fine");
    let unreadable = parse_review_output("} not json {", parse_summary, explanation_only);
    assert!(unreadable.used_plain_text_fallback);
    assert_eq!(unreadable.output.overall_explanation, "} not json {");
}

#[test]
fn review_diff_tool_reads_the_fixed_target_only() {
    let d = hachimi_agent::review::review_diff_descriptor();
    assert_eq!(d.name, hachimi_agent::review::REVIEW_DIFF_TOOL);
    assert!(d.parallel_safe);
    assert_eq!(d.required_scopes, vec!["workspace.read".to_string()]);
    assert_eq!(
        hachimi_agent::json::print_json(&d.input_schema),
        r#"{"additionalProperties":false,"properties":{},"required":[],"type":"object"}"#
    );
}

#[test]
fn review_diff_content_reports_exit_code_and_streams() {
    assert_eq!(
        hachimi_agent::review::review_diff_content(Some(0), false, "diff --git a b", ""),
        "exit_code=Some(0) truncated=false\nstdout:\ndiff --git a b\nstderr:\n"
    );
    assert_eq!(
        hachimi_agent::review::review_diff_content(Some(-2), true, "", "boom"),
        "exit_code=Some(-2) truncated=true\nstdout:\n\nstderr:\nboom"
    );
    assert_eq!(
        hachimi_agent::review::review_diff_content(None, false, "", ""),
        "exit_code=None truncated=false\nstdout:\n\nstderr:\n"
    );
    let long = "x".repeat(hachimi_agent::review::MAX_REVIEW_DIFF_CHARS);
    assert_eq!(
        hachimi_agent::review::review_diff_content(None, false, &long, "").chars().count(),
        hachimi_agent::review::MAX_REVIEW_DIFF_CHARS
    );
    assert_eq!(hachimi_agent::review::review_diff_failure("TimedOut", "slow"), "Review Diff Host TimedOut: slow");
}
