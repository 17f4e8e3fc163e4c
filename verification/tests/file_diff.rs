use hachimi_agent::file_diff::{
    append_full_replacement_diff, build_file_diff, build_text_diff, line_count, materialize_git_blob,
    normalized_path_key, same_file, status_is_added, FileDiffStatus, FileMaterialization, GitBlob,
};

fn materialized(value: Option<&[u8]>, mode: &str) -> FileMaterialization {
    FileMaterialization {
        exists: value.is_some(),
        content: value.map(<[u8]>::to_vec),
        hash: value.map(|value| format!("{}", value.len())),
        mode: Some(mode.into()),
        size: value.map(|value| value.len() as u64),
        binary: value.is_some_and(|value| value.contains(&0)),
    }
}

#[test]
fn run_diff_is_relative_to_the_pre_write_content() {
    let file = build_file_diff(
        "demo.txt",
        None,
        &materialized(Some(b"dirty before\nkeep\n"), "100644"),
        &materialized(Some(b"agent\nkeep\n"), "100644"),
    );
    assert_eq!(file.status, FileDiffStatus::Modified);
    assert_eq!(file.additions, 1);
    assert_eq!(file.deletions, 1);
    assert!(file.hunks[0].lines.iter().any(|line| line.text == "agent"));
}

#[test]
fn binary_rename_and_mode_change_are_typed() {
    let binary = build_file_diff(
        "new.bin",
        Some("old.bin"),
        &materialized(Some(b"\0old"), "100644"),
        &materialized(Some(b"\0new"), "100644"),
    );
    assert_eq!(binary.status, FileDiffStatus::Renamed);
    assert!(binary.binary);
    let mode = build_file_diff(
        "script.sh",
        None,
        &materialized(Some(b"echo ok\n"), "100644"),
        &materialized(Some(b"echo ok\n"), "100755"),
    );
    assert_eq!(mode.status, FileDiffStatus::TypeChanged);
}

#[test]
fn added_and_deleted_files_are_typed() {
    let added = build_file_diff("new.txt", None, &materialized(None, "100644"), &materialized(Some(b"a\nb\n"), "100644"));
    assert_eq!(added.status, FileDiffStatus::Added);
    assert_eq!(added.additions, 3);
    assert_eq!(added.deletions, 0);
    let deleted = build_file_diff("old.txt", None, &materialized(Some(b"a\n"), "100644"), &materialized(None, "100644"));
    assert_eq!(deleted.status, FileDiffStatus::Deleted);
    assert_eq!(deleted.deletions, 2);
}

#[test]
fn text_diff_numbers_its_lines() {
    let diff = build_text_diff("f.txt", "a\nb\n", "a\nc\n", FileDiffStatus::Modified);
    assert_eq!((diff.additions, diff.deletions), (1, 1));
    let lines = &diff.hunks[0].lines;
    assert_eq!(lines[0].text, "a");
    assert_eq!((lines[0].old_line, lines[0].new_line), (Some(1), Some(1)));
    let same = build_text_diff("f.txt", "a\n", "a\n", FileDiffStatus::Modified);
    assert_eq!((same.additions, same.deletions), (0, 0));
}

#[test]
fn full_replacement_diff_lists_every_line() {
    let mut output = String::new();
    append_full_replacement_diff(&mut output, "a.txt", Some(&b"old\n".to_vec()), Some(&b"new\nmore\n".to_vec()));
    assert_eq!(output, "--- a/a.txt\n+++ b/a.txt\n@@ -1,1 +1,2 @@\n-old\n+new\n+more\n");
    let mut created = String::from("x");
    append_full_replacement_diff(&mut created, "b.txt", None, Some(&b"hi".to_vec()));
    assert_eq!(created, "x--- a/b.txt\n+++ b/b.txt\n@@ -1,0 +1,1 @@\n+hi\n");
}

#[test]
fn file_states_compare_by_existence_hash_and_known_mode() {
    let a = materialized(Some(b"x"), "100644");
    let b = materialized(Some(b"y"), "100644");
    assert!(same_file(&a, &b));
    let c = materialized(Some(b"xy"), "100644");
    assert!(!same_file(&a, &c));
    let mut d = materialized(Some(b"x"), "100755");
    assert!(!same_file(&a, &d));
    d.mode = None;
    assert!(same_file(&a, &d));
}

#[test]
fn git_status_letters_mark_added_files() {
    assert!(status_is_added('?', '?'));
    assert!(status_is_added('A', ' '));
    assert!(status_is_added(' ', 'A'));
    assert!(!status_is_added('M', ' '));
}

#[test]
fn lines_are_counted_like_str_lines() {
    assert_eq!(line_count(""), 0);
    assert_eq!(line_count("a"), 1);
    assert_eq!(line_count("a\nb\n"), 2);
    assert_eq!(line_count("a\r\nb"), 2);
}

#[test]
fn git_blobs_decode_their_base64_bytes() {
    let blob = GitBlob {
        byte_size: 3,
        data_base64: "QUJD".into(),
        sha256: "hash".into(),
        mode: "100644".into(),
        binary: false,
    };
    let file = materialize_git_blob(blob).expect("blob");
    assert_eq!(file.content, Some(b"ABC".to_vec()));
    assert_eq!(file.hash.as_deref(), Some("hash"));
    let bad = GitBlob { byte_size: 3, data_base64: "!!".into(), sha256: "h".into(), mode: "100644".into(), binary: false };
    assert!(materialize_git_blob(bad).unwrap_err().starts_with("invalid Git baseline blob: "));
    let large = GitBlob {
        byte_size: 9_000_000,
        data_base64: "!!".into(),
        sha256: "h".into(),
        mode: "100644".into(),
        binary: true,
    };
    assert_eq!(materialize_git_blob(large).expect("large").content, None);
}

#[test]
fn path_keys_ignore_separators_and_case() {
    assert_eq!(normalized_path_key("Src\\Lib.RS"), "src/lib.rs");
    assert_eq!(normalized_path_key("ÄB/c"), "äb/c");
}
