use hachimi_agent::file_diff::{FileDiffStatus, FileMaterialization};
use hachimi_agent::run_diff::{
    chunk_hash, collect_run_diff, current_from_status, exec_baseline_source, BaselineSource, DiffEntry, GitStatusEntry,
};

fn materialized(value: Option<&[u8]>, hash: &str) -> FileMaterialization {
    FileMaterialization {
        exists: value.is_some(),
        content: value.map(<[u8]>::to_vec),
        hash: value.map(|_| hash.to_owned()),
        mode: Some("100644".into()),
        size: value.map(|value| value.len() as u64),
        binary: value.is_some_and(|value| value.contains(&0)),
    }
}

fn metadata_only(hash: &str) -> FileMaterialization {
    FileMaterialization {
        exists: true,
        content: None,
        hash: Some(hash.into()),
        mode: Some("100644".into()),
        size: Some(9_000_000),
        binary: false,
    }
}

fn status(path: &str, previous: Option<&str>, index: char, worktree: char) -> GitStatusEntry {
    GitStatusEntry {
        path: path.into(),
        previous_path: previous.map(str::to_owned),
        index_status: index,
        worktree_status: worktree,
        current_hash: Some("abc".into()),
        current_mode: Some("100755".into()),
        current_size: Some(7),
        current_binary: false,
    }
}

#[test]
fn unchanged_files_are_left_out_and_changed_ones_diffed_in_order() {
    let entries = vec![
        DiffEntry {
            display_path: "same.txt".into(),
            previous_path: None,
            previous: materialized(Some(b"a\n"), "h1"),
            current: materialized(Some(b"a\n"), "h1"),
        },
        DiffEntry {
            display_path: "edit.txt".into(),
            previous_path: None,
            previous: materialized(Some(b"old\n"), "h1"),
            current: materialized(Some(b"new\n"), "h2"),
        },
        DiffEntry {
            display_path: "gone.txt".into(),
            previous_path: None,
            previous: materialized(Some(b"x\n"), "h3"),
            current: materialized(None, ""),
        },
    ];
    let diff = collect_run_diff(&entries);
    assert_eq!(diff.files.len(), 2);
    assert_eq!(diff.files[0].path, "edit.txt");
    assert_eq!(diff.files[0].status, FileDiffStatus::Modified);
    assert_eq!(diff.files[1].status, FileDiffStatus::Deleted);
    assert!(!diff.truncated);
    assert!(diff.full_diffs.is_empty());
}

#[test]
fn large_text_files_get_a_full_replacement_diff_and_truncate_the_snapshot() {
    let entries = vec![DiffEntry {
        display_path: "big.txt".into(),
        previous_path: None,
        previous: materialized(Some(b"one\n"), "h1"),
        current: metadata_only("h2"),
    }];
    let diff = collect_run_diff(&entries);
    assert_eq!(diff.files.len(), 1);
    assert!(diff.files[0].too_large);
    assert!(diff.truncated);
    assert_eq!(diff.full_diffs, vec![("big.txt".to_string(), "--- a/big.txt\n+++ b/big.txt\n@@ -1,1 +1,0 @@\n-one\n".to_string())]);
}

#[test]
fn added_files_start_empty_and_renames_read_head_at_the_old_path() {
    assert!(matches!(exec_baseline_source(&status("new.rs", None, '?', '?')), BaselineSource::Absent));
    assert!(matches!(exec_baseline_source(&status("new.rs", None, 'A', ' ')), BaselineSource::Absent));
    match exec_baseline_source(&status("b.rs", Some("a.rs"), 'R', ' ')) {
        BaselineSource::Head(path) => assert_eq!(path, "a.rs"),
        BaselineSource::Absent => panic!("renamed file has a HEAD baseline"),
    }
    match exec_baseline_source(&status("c.rs", None, ' ', 'M')) {
        BaselineSource::Head(path) => assert_eq!(path, "c.rs"),
        BaselineSource::Absent => panic!("modified file has a HEAD baseline"),
    }
}

#[test]
fn outside_paths_are_described_by_their_status_and_etags_lose_their_prefix() {
    let current = current_from_status(&status("../x", None, ' ', 'M'));
    assert!(current.exists);
    assert!(current.content.is_none());
    assert_eq!(current.hash.as_deref(), Some("abc"));
    assert_eq!(current.mode.as_deref(), Some("100755"));
    assert_eq!(current.size, Some(7));
    assert_eq!(chunk_hash("sha256:deadbeef"), "deadbeef");
    assert_eq!(chunk_hash("W/\"x\""), "W/\"x\"");
    assert_eq!(chunk_hash("sha256"), "sha256");
}
