use hachimi_agent::compaction::{extract_identifiers, merge_identifiers, prepare_source, CompactionPolicy};
use hachimi_agent::transcript::{ItemPayload, ItemStatus, TranscriptItem, TranscriptItemKind};

fn item(sequence: u64, run: &str, kind: TranscriptItemKind, text: &str) -> TranscriptItem {
    let payload = match kind {
        TranscriptItemKind::User => ItemPayload::User { text: text.into() },
        _ => ItemPayload::Assistant { text: text.into() },
    };
    TranscriptItem {
        sequence,
        run_id: Some(run.into()),
        kind,
        status: ItemStatus::Completed,
        payload,
        payload_json: "{}".into(),
    }
}

fn check_identifiers() {
    let identifiers =
        extract_identifiers("src/lib.rs run-42 deadbeefcafebaad https://example.com TOKEN=secret ordinary", 16);
    assert!(identifiers.contains(&"src/lib.rs".to_owned()));
    assert!(identifiers.contains(&"run-42".to_owned()));
    assert!(identifiers.contains(&"deadbeefcafebaad".to_owned()));
    assert!(!identifiers.iter().any(|value| value.contains("secret")));
    assert!(!identifiers.iter().any(|value| value.contains("example.com")));
}

fn check_merge() {
    let previous = vec!["run-old".into(), "src/old.rs".into()];
    let merged = merge_identifiers(&previous, vec!["run-new".into(), "src/new.rs".into()], 3);
    assert_eq!(merged, vec!["run-old", "src/old.rs", "run-new"]);
}

#[test]
fn compaction_extracts_only_bounded_continuity_identifiers() {
    check_identifiers();
}

#[test]
fn compaction_budget_tests_extracts_only_bounded_continuity_identifiers() {
    check_identifiers();
}

#[test]
fn compaction_older_checkpoint_identifiers_have_retention_priority() {
    check_merge();
}

#[test]
fn compaction_budget_tests_older_checkpoint_identifiers_have_retention_priority() {
    check_merge();
}

#[test]
fn compaction_preserves_recent_tail_and_stops_before_current_run() {
    let transcript = (1..=8)
        .map(|sequence| {
            let run = if sequence == 8 { "current" } else { "old" };
            item(
                sequence,
                run,
                if sequence % 2 == 0 { TranscriptItemKind::Assistant } else { TranscriptItemKind::User },
                &format!("message {sequence}"),
            )
        })
        .collect::<Vec<_>>();
    let mut policy = CompactionPolicy::default_policy();
    policy.automatic_trigger_chars = 0;
    policy.recent_tail_items = 2;
    let source = prepare_source(&transcript, Some("current"), None, policy, false).expect("source");
    assert_eq!(source.covered_through_sequence, 5);
    assert_eq!(source.recent_tail_items, 2);
    assert!(!source.rendered.contains("message 8"));
}
