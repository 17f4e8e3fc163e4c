use hachimi_agent::clock::{clamp_millis, current_time_ms, millis_from_reading, now_ms};
use hachimi_agent::compaction::CompactionPolicy;
use hachimi_agent::compaction_flow::{
    add_usage, compaction_error_code, compaction_phase, failure_record, finish_reason_gate, output_budget,
    preferred_count_source, remaining_context_tokens, remote_summary_text, requested_implementation,
    summary_route, summary_size_gate, summary_source_for, trigger_for_reason, usize_to_u64, CompactionError,
    CompactionImplementation, CompactionPhase, CompactionReason, CompactionSummarySource, CompactionTrigger,
    ModelFinishReason, ModelRuntimeErrorKind, ProviderRemoteSetting, SummaryRoute, TokenCountSource, TokenUsage,
    failed_remote_fallback, unverified_remote_fallback, StreamStep, SummaryEvent, SummaryStream,
};
use hachimi_agent::digest::{hex_encode, sha256_hex};
use hachimi_agent::json::{parse_json, print_json, JsonValue};
use hachimi_agent::model::{ModelMessage, ModelRole, ModelToolCall};

fn message(role: ModelRole, content: &str) -> ModelMessage {
    ModelMessage {
        role,
        content: content.into(),
        name: None,
        tool_call_id: None,
        tool_calls: Vec::new(),
        input_images: Vec::new(),
    }
}

#[test]
fn reasons_sources_and_phases() {
    assert_eq!(trigger_for_reason(CompactionReason::Reactive), CompactionTrigger::ProviderOverflow);
    assert_eq!(trigger_for_reason(CompactionReason::Automatic), CompactionTrigger::Auto);
    assert_eq!(
        summary_source_for(CompactionImplementation::Remote, true),
        CompactionSummarySource::LocalFallback
    );
    assert_eq!(
        summary_source_for(CompactionImplementation::Remote, false),
        CompactionSummarySource::ProviderRemote
    );
    assert_eq!(compaction_phase(false, true), CompactionPhase::Standalone);
    assert_eq!(compaction_phase(true, true), CompactionPhase::MidRun);
    assert_eq!(compaction_phase(true, false), CompactionPhase::PreRun);
}

#[test]
fn count_sources_prefer_the_least_exact() {
    assert_eq!(preferred_count_source(TokenCountSource::Provider, TokenCountSource::Provider), TokenCountSource::Provider);
    assert_eq!(preferred_count_source(TokenCountSource::Provider, TokenCountSource::Tokenizer), TokenCountSource::Tokenizer);
    assert_eq!(preferred_count_source(TokenCountSource::Tokenizer, TokenCountSource::ConservativeEstimate),
        TokenCountSource::ConservativeEstimate);
}

#[test]
fn usage_adds_with_saturation() {
    let total = add_usage(
        TokenUsage { input_tokens: u64::MAX - 1, output_tokens: 3 },
        TokenUsage { input_tokens: 5, output_tokens: 4 },
    );
    assert_eq!((total.input_tokens, total.output_tokens), (u64::MAX, 7));
}

#[test]
fn errors_have_stable_codes() {
    assert_eq!(
        compaction_error_code(&CompactionError::Runtime(ModelRuntimeErrorKind::ContextOverflow)),
        "remote_context_overflow"
    );
    assert_eq!(compaction_error_code(&CompactionError::QualityRejected("summary_too_short".into())), "summary_too_short");
    assert_eq!(compaction_error_code(&CompactionError::Store("disk".into())), "compaction_store_failed");
    assert_eq!(
        failure_record(&CompactionError::Runtime(ModelRuntimeErrorKind::Cancelled)),
        (true, "compaction_cancelled".to_owned())
    );
    assert_eq!(
        failure_record(&CompactionError::Runtime(ModelRuntimeErrorKind::Other)),
        (false, "compaction_model_failed".to_owned())
    );
}

#[test]
fn routes_follow_model_and_provider_settings() {
    let configured = Some(ProviderRemoteSetting { remote_configured: true });
    let unconfigured = Some(ProviderRemoteSetting { remote_configured: false });
    assert_eq!(summary_route(false, configured), SummaryRoute::LocalUnverifiedRemote);
    assert_eq!(summary_route(true, configured), SummaryRoute::RemoteFirst);
    assert_eq!(summary_route(true, None), SummaryRoute::RemoteFirst);
    assert_eq!(summary_route(true, unconfigured), SummaryRoute::Local);
    assert_eq!(requested_implementation(false, configured), CompactionImplementation::Remote);
    assert_eq!(requested_implementation(false, None), CompactionImplementation::Local);
}

#[test]
fn summary_gates_reject_incomplete_or_badly_sized_output() {
    assert_eq!(finish_reason_gate(Some(ModelFinishReason::Stop)), Ok(()));
    assert_eq!(finish_reason_gate(Some(ModelFinishReason::Length)), Err("summary_truncated".to_owned()));
    assert_eq!(finish_reason_gate(None), Err("summary_stream_incomplete".to_owned()));
    let policy = CompactionPolicy::default_policy();
    assert_eq!(summary_size_gate(10, policy), Err("summary_too_short".to_owned()));
    assert_eq!(summary_size_gate(40_000, policy), Err("summary_too_large".to_owned()));
    assert_eq!(summary_size_gate(100, policy), Ok(()));
}

#[test]
fn remote_summaries_come_from_the_last_assistant_message() {
    let messages = vec![message(ModelRole::Assistant, "old"), message(ModelRole::Assistant, "  summary  ")];
    assert_eq!(remote_summary_text(&messages), Ok("summary".to_owned()));
    assert_eq!(
        remote_summary_text(&vec![message(ModelRole::User, "hi")]),
        Err("remote_compaction_missing_summary".to_owned())
    );
    let mut with_calls = message(ModelRole::Assistant, "summary");
    with_calls.tool_calls = vec![ModelToolCall { id: "c".into(), name: "shell".into() }];
    assert_eq!(
        remote_summary_text(&vec![with_calls]),
        Err("remote_compaction_returned_tool_history".to_owned())
    );
}

#[test]
fn output_and_remaining_budgets() {
    assert_eq!(output_budget(Some(100), 4_096), 100);
    assert_eq!(output_budget(Some(10_000), 4_096), 4_096);
    assert_eq!(output_budget(None, 4_096), 4_096);
    assert_eq!(remaining_context_tokens(1_000, 300, 200), 500);
    assert_eq!(remaining_context_tokens(1_000, 900, 200), 0);
    assert_eq!(usize_to_u64(7), 7);
}

#[test]
fn sha256_is_rendered_in_lowercase_hex() {
    assert_eq!(sha256_hex("abc"), "ba7816bf8f01cfea414140de5dae2223b00361a396177a9cb410ff61f20015ad");
    assert_eq!(hex_encode(&[0x00, 0xab, 0x10]), "00ab10");
}

#[test]
fn time_is_never_negative() {
    assert!(now_ms() > 1_600_000_000_000);
    assert!(current_time_ms() >= 0);
    assert_eq!(clamp_millis(5), 5);
    assert_eq!(clamp_millis(u128::MAX), i64::MAX);
}

#[test]
fn clock_readings_map_to_recorded_milliseconds() {
    assert_eq!(millis_from_reading(None), 0);
    assert_eq!(millis_from_reading(Some(1_700_000_000_123)), 1_700_000_000_123);
    assert_eq!(millis_from_reading(Some(u128::MAX)), i64::MAX);
    assert_eq!(millis_from_reading(Some(9_223_372_036_854_775_807)), i64::MAX);
}

#[test]
fn json_round_trips_through_serde_json() {
    let value = parse_json(r#"{"b":[1,true,null],"a":"x"}"#).expect("json");
    assert_eq!(print_json(&value), r#"{"a":"x","b":[1,true,null]}"#);
    assert!(matches!(value, JsonValue::Object(ref members) if members[0].0 == "a"));
    assert!(parse_json("{not json").is_none());
}

#[test]
fn summary_prompts_carry_the_previous_checkpoint_and_the_segment() {
    let local = hachimi_agent::compaction_flow::local_summary_prompt(None, "user: hi");
    assert_eq!(
        local,
        "Earlier accepted checkpoint:\n<previous>\nNo earlier checkpoint exists.\n</previous>\n\nNew transcript segment:\n<transcript>\nuser: hi\n</transcript>"
    );
    let remote = hachimi_agent::compaction_flow::remote_summary_prompt(Some("# Goal"), "assistant: ok");
    assert_eq!(remote, "Previous continuity record:\n# Goal\n\nNew transcript segment:\nassistant: ok");
    assert!(hachimi_agent::compaction_flow::LOCAL_SUMMARY_INSTRUCTIONS.contains("untrusted data"));
}

#[test]
fn summary_stream_accumulates_text_and_gates_the_finish() {
    let mut stream = SummaryStream::new();
    assert!(matches!(stream.on_event(SummaryEvent::Text("  # Goal".into())), StreamStep::Continue));
    assert!(matches!(stream.on_event(SummaryEvent::Ignored), StreamStep::Continue));
    assert!(matches!(stream.on_event(SummaryEvent::Text("\n".into())), StreamStep::Continue));
    let usage = TokenUsage { input_tokens: 10, output_tokens: 3 };
    assert!(matches!(stream.on_event(SummaryEvent::Usage(usage)), StreamStep::Continue));
    assert_eq!(stream.finish().unwrap_err(), "summary_stream_incomplete");
    assert!(matches!(stream.on_event(SummaryEvent::Completed(ModelFinishReason::Stop)), StreamStep::Continue));
    let (text, got) = stream.finish().unwrap();
    assert_eq!(text, "# Goal");
    assert_eq!(got, usage);
    assert!(matches!(
        stream.on_event(SummaryEvent::ToolCall),
        StreamStep::Stop(CompactionError::QualityRejected(code)) if code == "summary_returned_tool_call"
    ));
    assert!(matches!(stream.on_event(SummaryEvent::Overflow), StreamStep::Overflowed));
    let mut truncated = SummaryStream::new();
    truncated.on_event(SummaryEvent::Completed(ModelFinishReason::Length));
    assert_eq!(truncated.finish().unwrap_err(), "summary_truncated");
}

#[test]
fn remote_failures_fall_back_locally_except_cancellation() {
    let unverified = unverified_remote_fallback();
    assert_eq!(unverified.reason, "remote_capability_not_verified");
    assert_eq!(unverified.warning, "remote_compaction_capability_not_verified_fell_back_local");
    assert!(failed_remote_fallback(&CompactionError::Runtime(ModelRuntimeErrorKind::Cancelled)).is_none());
    let drift = failed_remote_fallback(&CompactionError::Runtime(ModelRuntimeErrorKind::UnsupportedCapability)).unwrap();
    assert_eq!(drift.reason, "remote_capability_drift");
    assert_eq!(drift.warning, "remote_compaction_failed_fell_back_local");
    let rejected = failed_remote_fallback(&CompactionError::QualityRejected("remote_compaction_missing_summary".into())).unwrap();
    assert_eq!(rejected.reason, "remote_compaction_missing_summary");
}

fn prepared_source(rendered: &str, goal: Option<&str>) -> hachimi_agent::compaction::PreparedSource {
    hachimi_agent::compaction::PreparedSource {
        rendered: rendered.into(),
        latest_user_goal: goal.map(str::to_owned),
        covered_through_sequence: 42,
        source_items: 7,
        source_chars: rendered.chars().count(),
        recent_tail_items: 16,
    }
}

#[test]
fn checkpoints_are_built_only_from_summaries_within_bounds() {
    let policy = CompactionPolicy::default_policy();
    let source = prepared_source("user: fix run_abcdef12 please", Some("fix it"));
    let short = hachimi_agent::compaction_flow::assemble_checkpoint(
        "cp-2".into(),
        Some("run-1".into()),
        None,
        &source,
        "too short".into(),
        Vec::new(),
        policy,
    );
    assert_eq!(short.unwrap_err(), "summary_too_short");
    let long = hachimi_agent::compaction_flow::assemble_checkpoint(
        "cp-2".into(),
        None,
        None,
        &source,
        "x".repeat(policy.max_summary_chars + 1),
        Vec::new(),
        policy,
    );
    assert_eq!(long.unwrap_err(), "summary_too_large");
}

#[test]
fn accepted_checkpoints_follow_the_previous_one() {
    let policy = CompactionPolicy::default_policy();
    let previous = hachimi_agent::transcript::CompactionCheckpoint {
        id: "cp-1".into(),
        run_id: None,
        covered_through_sequence: 10,
        summary: hachimi_agent::transcript::CompactionSummary {
            semantic_markdown: "# earlier".into(),
            latest_user_goal: Some("earlier goal".into()),
            preserved_identifiers: vec!["run_00000001".into()],
        },
    };
    let source = prepared_source("assistant: checked run_abcdef12 and run_00000001", None);
    let summary = "# Current goal\nKeep going with the work that was started.".to_string();
    let assembled = hachimi_agent::compaction_flow::assemble_checkpoint(
        "cp-2".into(),
        Some("run-1".into()),
        Some(&previous),
        &source,
        summary.clone(),
        vec!["remote_compaction_failed_fell_back_local".into()],
        policy,
    )
    .unwrap();
    assert_eq!(assembled.checkpoint.id, "cp-2");
    assert_eq!(assembled.previous_checkpoint_id.as_deref(), Some("cp-1"));
    assert_eq!(assembled.checkpoint.covered_through_sequence, 42);
    assert_eq!(assembled.checkpoint.summary.semantic_markdown, summary);
    assert_eq!(assembled.checkpoint.summary.latest_user_goal.as_deref(), Some("earlier goal"));
    assert_eq!(assembled.checkpoint.summary.preserved_identifiers[0], "run_00000001");
    assert!(assembled.quality.accepted);
    assert_eq!(assembled.quality.summary_chars, summary.chars().count() as u64);
    assert_eq!(assembled.quality.source_items, 7);
    assert_eq!(
        assembled.quality.preserved_identifier_count,
        assembled.checkpoint.summary.preserved_identifiers.len() as u64
    );
    assert_eq!(
        assembled.quality.warnings,
        vec!["remote_compaction_failed_fell_back_local".to_string(), "multiple_compactions_may_reduce_accuracy".to_string()]
    );
}

#[test]
fn token_snapshots_reserve_the_output_budget() {
    let usage = TokenUsage { input_tokens: 100, output_tokens: 20 };
    let snapshot = hachimi_agent::compaction_flow::token_snapshot(
        usage,
        (9000, TokenCountSource::Provider),
        (2000, TokenCountSource::Tokenizer),
        Some(10000),
        Some(8000),
        4096,
    );
    assert_eq!(snapshot.billed_usage, usage);
    assert_eq!(snapshot.active_context_tokens_after, 2000);
    assert_eq!(snapshot.remaining_context_tokens, 10000 - 2000 - 4096);
    assert_eq!(snapshot.source, TokenCountSource::Tokenizer);
    let no_window = hachimi_agent::compaction_flow::token_snapshot(
        usage,
        (1, TokenCountSource::Provider),
        (1, TokenCountSource::Provider),
        None,
        None,
        4096,
    );
    assert_eq!(no_window.remaining_context_tokens, 0);
}
