use hachimi_agent::compaction::CompactionPolicy;
use hachimi_agent::compaction_flow::{
    compaction_step, CompactionAction, CompactionError, CompactionEvent, CompactionFlow, CompactionStage,
    ModelRuntimeErrorKind, SummaryResponse, TokenUsage,
};
use hachimi_agent::transcript::{
    CompactionCheckpoint, CompactionSummary, ItemPayload, ItemStatus, TranscriptItem, TranscriptItemKind,
};

fn item(sequence: u64, run: &str) -> TranscriptItem {
    let (kind, payload) = if sequence % 2 == 1 {
        (TranscriptItemKind::User, ItemPayload::User { text: format!("message {sequence}") })
    } else {
        (TranscriptItemKind::Assistant, ItemPayload::Assistant { text: format!("message {sequence}") })
    };
    TranscriptItem { sequence, run_id: Some(run.into()), kind, status: ItemStatus::Completed, payload, payload_json: "{}".into() }
}

fn transcript() -> Vec<TranscriptItem> {
    (1..=8).map(|sequence| item(sequence, if sequence == 8 { "run-1" } else { "old" })).collect()
}

fn previous() -> CompactionCheckpoint {
    CompactionCheckpoint {
        id: "cp-1".into(),
        run_id: Some("old".into()),
        covered_through_sequence: 2,
        summary: CompactionSummary {
            semantic_markdown: "# earlier".into(),
            latest_user_goal: None,
            preserved_identifiers: Vec::new(),
        },
    }
}

fn policy() -> CompactionPolicy {
    let mut policy = CompactionPolicy::default_policy();
    policy.automatic_trigger_chars = 0;
    policy.recent_tail_items = 2;
    policy
}

fn loaded() -> CompactionFlow {
    let flow = CompactionFlow::new(Some("run-1".into()), policy(), true);
    let (flow, action) = compaction_step(
        flow,
        CompactionEvent::Loaded { cancelled: false, transcript: transcript(), previous: Some(previous()) },
    );
    match action {
        CompactionAction::RequestSummary { source, previous_summary } => {
            assert!(source.contains("message 3"));
            assert!(!source.contains("message 8"));
            assert_eq!(previous_summary.as_deref(), Some("# earlier"));
        },
        other => panic!("unexpected {other:?}"),
    }
    assert_eq!(flow.stage, CompactionStage::Summary);
    flow
}

fn summary(text: &str) -> SummaryResponse {
    SummaryResponse { semantic_markdown: text.into(), warnings: Vec::new(), usage: TokenUsage { input_tokens: 100, output_tokens: 12 } }
}

#[test]
fn repeated_compaction_accumulates_billing_and_warns() {
    let flow = loaded();
    let (flow, action) = compaction_step(
        flow,
        CompactionEvent::Summarized {
            checkpoint_id: "cp-2".into(),
            response: Ok(summary("# Goal\nKeep going with the work that was started here.")),
        },
    );
    match &action {
        CompactionAction::StoreCheckpoint(a) => {
            assert_eq!(a.previous_checkpoint_id.as_deref(), Some("cp-1"));
            assert!(a.checkpoint.covered_through_sequence > 2);
            assert!(a.quality.warnings.contains(&"multiple_compactions_may_reduce_accuracy".to_string()));
        },
        other => panic!("unexpected {other:?}"),
    }
    assert_eq!(flow.latest.as_deref(), Some("cp-2"));
    let (flow, action) = compaction_step(flow, CompactionEvent::CheckpointStored);
    assert!(matches!(action, CompactionAction::ReadUsage(ref r) if r == "run-1"));
    let (flow, action) =
        compaction_step(flow, CompactionEvent::UsageRead(Some(TokenUsage { input_tokens: 100, output_tokens: 12 })));
    match action {
        CompactionAction::WriteUsage { run_id, billed } => {
            assert_eq!(run_id, "run-1");
            assert_eq!(billed, TokenUsage { input_tokens: 200, output_tokens: 24 });
        },
        other => panic!("unexpected {other:?}"),
    }
    let (flow, action) = compaction_step(flow, CompactionEvent::UsageWritten);
    assert!(matches!(action, CompactionAction::CompleteItem { ref checkpoint_id, .. } if checkpoint_id == "cp-2"));
    let (flow, action) = compaction_step(flow, CompactionEvent::ItemCompleted);
    assert!(matches!(action, CompactionAction::Finish(ref id) if id == "cp-2"));
    assert_eq!(flow.stage, CompactionStage::Done);
}

#[test]
fn rejected_summary_keeps_the_previous_checkpoint() {
    let flow = loaded();
    let (flow, action) =
        compaction_step(flow, CompactionEvent::Summarized { checkpoint_id: "cp-2".into(), response: Ok(summary("short")) });
    assert!(matches!(action, CompactionAction::FailItem { interrupted: false, ref code } if code == "summary_too_short"));
    let (flow, action) = compaction_step(flow, CompactionEvent::ItemCompleted);
    assert!(matches!(action, CompactionAction::Fail(CompactionError::QualityRejected(ref c)) if c == "summary_too_short"));
    assert_eq!(flow.latest.as_deref(), Some("cp-1"));
}

#[test]
fn cancelled_compactions_interrupt_the_item_or_stop_before_reading() {
    let flow = loaded();
    let (flow, action) = compaction_step(
        flow,
        CompactionEvent::Summarized {
            checkpoint_id: "cp-2".into(),
            response: Err(CompactionError::Runtime(ModelRuntimeErrorKind::Cancelled)),
        },
    );
    assert!(matches!(action, CompactionAction::FailItem { interrupted: true, ref code } if code == "compaction_cancelled"));
    assert_eq!(flow.latest.as_deref(), Some("cp-1"));

    let flow = CompactionFlow::new(None, policy(), true);
    let (_, action) =
        compaction_step(flow, CompactionEvent::Loaded { cancelled: true, transcript: transcript(), previous: None });
    assert!(matches!(action, CompactionAction::Fail(CompactionError::Runtime(ModelRuntimeErrorKind::Cancelled))));
}

#[test]
fn first_compaction_without_a_run_completes_without_usage() {
    let flow = CompactionFlow::new(None, policy(), true);
    let (flow, _) = compaction_step(flow, CompactionEvent::Loaded { cancelled: false, transcript: transcript(), previous: None });
    let (flow, action) = compaction_step(
        flow,
        CompactionEvent::Summarized {
            checkpoint_id: "cp-1".into(),
            response: Ok(summary("# Goal\nKeep going with the work that was started here.")),
        },
    );
    match &action {
        CompactionAction::StoreCheckpoint(a) => {
            assert_eq!(a.previous_checkpoint_id, None);
            assert!(a.quality.warnings.is_empty());
        },
        other => panic!("unexpected {other:?}"),
    }
    let (_, action) = compaction_step(flow, CompactionEvent::CheckpointStored);
    assert!(matches!(action, CompactionAction::CompleteItem { ref checkpoint_id, .. } if checkpoint_id == "cp-1"));
}
