use hachimi_agent::budget::{
    bounded_tool_result, context_budget, find_first, find_last, is_retained_metadata_key, microcompact_request,
    protected_round_boundary, repair_tool_pairs, retained_tool_result,
};
use hachimi_agent::capabilities::ProviderCapabilities;
use hachimi_agent::compaction_flow::TokenCountSource;
use hachimi_agent::model::{ModelInputImage, ModelMessage, ModelRole, ModelToolCall};

fn capabilities(context_window: u64, max_output_tokens: Option<u64>) -> ProviderCapabilities {
    ProviderCapabilities { context_window: Some(context_window), max_output_tokens, ..ProviderCapabilities::default() }
}

fn call(id: &str, name: &str) -> ModelToolCall {
    ModelToolCall { id: id.into(), name: name.into() }
}

fn message(role: ModelRole, content: &str) -> ModelMessage {
    ModelMessage {
        role,
        content: content.into(),
        name: None,
        tool_call_id: None,
        tool_calls: Vec::new(),
        input_images: Vec::new(),
    }
}

fn assistant(calls: Vec<ModelToolCall>) -> ModelMessage {
    ModelMessage { tool_calls: calls, ..message(ModelRole::Assistant, "") }
}

fn tool(call: &ModelToolCall, content: &str) -> ModelMessage {
    ModelMessage {
        name: Some(call.name.clone()),
        tool_call_id: Some(call.id.clone()),
        ..message(ModelRole::Tool, content)
    }
}

fn count(messages: &Vec<ModelMessage>) -> (u64, TokenCountSource) {
    (messages.iter().map(|message| message.content.len() as u64).sum(), TokenCountSource::Tokenizer)
}

#[test]
fn budget_uses_tiers_and_caps() {
    let small = context_budget(&capabilities(200_000, Some(8_000))).unwrap();
    assert_eq!(small.summary_reserve, 8_000);
    assert_eq!(small.predictive_buffer, 23_000);
    assert_eq!(small.auto_threshold, 169_000);

    let large = context_budget(&capabilities(800_000, Some(100_000))).unwrap();
    assert_eq!(large.summary_reserve, 20_000);
    assert_eq!(large.predictive_buffer, 50_000);
    assert_eq!(large.auto_threshold, 730_000);
}

#[test]
fn missing_context_window_has_no_token_budget() {
    assert!(context_budget(&ProviderCapabilities::default()).is_none());
}

#[test]
fn middle_tier_and_default_reserve() {
    let budget = context_budget(&capabilities(400_000, None)).unwrap();
    assert_eq!(budget.summary_reserve, 4_096);
    assert_eq!(budget.predictive_buffer, 30_000);
    assert_eq!(budget.auto_threshold, 400_000 - 4_096 - 30_000);
    assert!(context_budget(&capabilities(1_000, Some(8_000))).is_none());
}

#[test]
fn microcompact_preserves_latest_two_rounds() {
    let long = "x".repeat(4_000);
    let (old, recent_1, recent_2) = (call("old", "shell"), call("recent-1", "shell"), call("recent-2", "shell"));
    let mut messages = vec![
        assistant(vec![old.clone()]),
        tool(&old, &long),
        assistant(vec![recent_1.clone()]),
        tool(&recent_1, &long),
        assistant(vec![recent_2.clone()]),
        tool(&recent_2, &long),
    ];
    let stats = microcompact_request(&mut messages, count);
    assert_eq!(stats.compacted_items, 1);
    assert!(messages[1].content.contains("Microcompact"));
    assert_eq!(messages[3].content, long);
    assert_eq!(messages[5].content, long);
    assert!(stats.tokens_after < stats.tokens_before);
    assert_eq!(stats.source, TokenCountSource::Tokenizer);
}

#[test]
fn repairs_orphan_results_and_removes_old_image_bytes() {
    let orphan = call("orphan", "browser_screenshot");
    let mut first = message(ModelRole::User, "old screenshot");
    first.input_images =
        vec![ModelInputImage { media_type: "image/png".into(), source_label: "browser-observation-1".into() }];
    let mut messages = vec![first, tool(&orphan, &"frame".repeat(2_000)), message(ModelRole::User, "continue")];
    let stats = microcompact_request(&mut messages, count);
    assert_eq!(stats.repaired_items, 1);
    assert_eq!(stats.removed_images, 1);
    assert!(messages[0].input_images.is_empty());
    assert!(messages[0].content.contains("bounded image references"));
    assert!(messages[0].content.contains("image/png:browser-observation-1"));
    assert_eq!(messages[1].role, ModelRole::User);
    assert!(messages[1].content.contains("orphan or duplicate"));
}

#[test]
fn office_binary_retention_keeps_only_structured_artifact_reference() {
    let office = call("office-call", "office.inspect_artifact");
    let binary = "QUJD".repeat(4_000);
    let content = format!(
        "{{\"artifactId\":\"artifact-office-1\",\"changedParts\":[\"word/document.xml\"],\"contentHash\":\"sha256:1234\",\"dataBase64\":\"{binary}\",\"mimeType\":\"application/vnd.openxmlformats-officedocument.wordprocessingml.document\",\"revision\":\"rev-2\",\"status\":\"succeeded\"}}"
    );
    let (recent_1, recent_2) = (call("recent-1", "shell"), call("recent-2", "shell"));
    let mut messages = vec![
        assistant(vec![office.clone()]),
        tool(&office, &content),
        assistant(vec![recent_1.clone()]),
        tool(&recent_1, "recent result 1"),
        assistant(vec![recent_2.clone()]),
        tool(&recent_2, "recent result 2"),
    ];
    microcompact_request(&mut messages, count);
    let retained = &messages[1].content;
    assert!(retained.contains("artifact-office-1"));
    assert!(retained.contains("mimeType"));
    assert!(retained.contains("contentHash"));
    assert!(retained.contains("revision"));
    assert!(!retained.contains("dataBase64"));
    assert!(!retained.contains("QUJDQUJD"));
}

#[test]
fn short_results_are_kept_and_long_ones_keep_head_and_tail() {
    assert_eq!(bounded_tool_result("short"), "short");
    let long = format!("{}{}{}", "h".repeat(1_024), "q".repeat(5_000), "t".repeat(1_024));
    let bounded = bounded_tool_result(&long);
    assert!(bounded.starts_with(&"h".repeat(1_024)));
    assert!(bounded.ends_with(&"t".repeat(1_024)));
    assert!(!bounded.contains('q'));
    assert!(bounded.len() < long.len());
}

#[test]
fn retained_result_without_metadata_is_bounded_text() {
    let long = "y".repeat(9_000);
    let retained = retained_tool_result(Some("shell"), &long);
    assert!(retained.contains("Microcompact"));
    assert!(retained.len() < long.len());
    assert_eq!(retained_tool_result(Some("shell"), "small"), "small");
}

#[test]
fn metadata_keys_are_recognised_by_name() {
    assert!(is_retained_metadata_key("artifactid"));
    assert!(is_retained_metadata_key("contenthash"));
    assert!(!is_retained_metadata_key("database64"));
}

#[test]
fn character_search_finds_first_and_last() {
    let chars: Vec<char> = "a{b}c}".chars().collect();
    assert_eq!(find_first(&chars, '}'), Some(3));
    assert_eq!(find_last(&chars, '}'), Some(5));
    assert_eq!(find_first(&chars, 'z'), None);
}

#[test]
fn duplicate_results_and_missing_results_are_repaired() {
    let c = call("c1", "shell");
    let mut messages = vec![assistant(vec![c.clone()]), tool(&c, "one"), tool(&c, "two")];
    let repaired = repair_tool_pairs(&mut messages);
    assert_eq!(repaired, 3);
    assert_eq!(messages[1].role, ModelRole::User);
    assert_eq!(messages[2].role, ModelRole::User);
    let mut missing = vec![assistant(vec![call("lost", "shell")]), message(ModelRole::User, "next")];
    assert_eq!(repair_tool_pairs(&mut missing), 1);
    assert!(missing[0].tool_calls.is_empty());
}

#[test]
fn two_rounds_are_protected_from_the_end() {
    let (a, b, c) = (call("a", "s"), call("b", "s"), call("c", "s"));
    let messages = vec![
        assistant(vec![a.clone()]),
        tool(&a, "ra"),
        assistant(vec![b.clone()]),
        tool(&b, "rb"),
        assistant(vec![c.clone()]),
        tool(&c, "rc"),
    ];
    assert_eq!(protected_round_boundary(&messages, 2), 2);
    assert_eq!(protected_round_boundary(&messages, 3), 0);
    assert_eq!(protected_round_boundary(&messages, 1), 4);
}
