use hachimi_agent::agents::{
    agents_path, agents_read_step, bounded_utf8, join_relative, layers_revision, override_path, serialized_layers, relative_ancestors, AgentsFile,
    AgentsMdAssembly, AgentsMdError, AgentsReadStep,
};

#[test]
fn rejects_escape_and_absolute_cwd() {
    assert!(relative_ancestors("../outside").is_err());
    assert!(relative_ancestors("C:/outside").is_err());
    assert!(relative_ancestors("/outside").is_err());
}

#[test]
fn ancestors_run_from_the_root_to_the_cwd() {
    let dirs = relative_ancestors("src\\.//lib/./deep").expect("relative");
    assert_eq!(dirs, vec!["", "src", "src/lib", "src/lib/deep"]);
    assert_eq!(relative_ancestors("").expect("root"), vec![""]);
    assert!(matches!(relative_ancestors("a/../b"), Err(AgentsMdError::InvalidCwd)));
}

#[test]
fn files_are_joined_below_their_directory() {
    assert_eq!(join_relative("", "AGENTS.md"), "AGENTS.md");
    assert_eq!(join_relative("src/lib", "AGENTS.md"), "src/lib/AGENTS.md");
    assert_eq!(override_path("src"), "src/AGENTS.override.md");
    assert_eq!(agents_path(""), "AGENTS.md");
}

#[test]
fn utf8_budget_cuts_at_a_character_boundary() {
    assert_eq!(bounded_utf8("hello", 5), ("hello".to_owned(), false));
    assert_eq!(bounded_utf8("héllo", 2), ("h".to_owned(), true));
    assert_eq!(bounded_utf8("héllo", 3), ("hé".to_owned(), true));
    assert_eq!(bounded_utf8("abc", 0), (String::new(), true));
}

#[test]
fn assembly_uses_override_layers_and_the_byte_budget() {
    let mut assembly = AgentsMdAssembly::new(11);
    assembly.accept(
        "",
        Some(AgentsFile { path: "AGENTS.md".into(), markdown: "root".into(), content_hash: "root-hash".into() }),
    );
    assert!(!assembly.finished);
    assembly.accept(
        "src",
        Some(AgentsFile {
            path: "src/AGENTS.override.md".into(),
            markdown: "override".into(),
            content_hash: "override-hash".into(),
        }),
    );
    assert_eq!(assembly.layers.len(), 2);
    assert_eq!(assembly.layers[1].source_path, "src/AGENTS.override.md");
    assert_eq!(assembly.layers[1].markdown, "overrid");
    assert!(assembly.truncated);
    assert!(assembly.finished);
    assert_eq!(assembly.remaining, 0);
    let snapshot = assembly.into_snapshot();
    assert_eq!(snapshot.revision.len(), 64);
    assert_ne!(snapshot.revision, layers_revision("[[],false]"));
    assert_eq!(
        snapshot.revision,
        layers_revision(
            r#"[[{"relativeDirectory":"","sourcePath":"AGENTS.md","contentHash":"root-hash","markdown":"root"},{"relativeDirectory":"src","sourcePath":"src/AGENTS.override.md","contentHash":"override-hash","markdown":"overrid"}],true]"#
        )
    );
}

#[test]
fn missing_file_leaves_the_assembly_unchanged() {
    let mut assembly = AgentsMdAssembly::new(5);
    assembly.accept("src", None);
    assert!(assembly.layers.is_empty());
    assert_eq!(assembly.remaining, 5);
    assert!(!assembly.truncated);
}

#[test]
fn error_messages_match_their_kind() {
    assert_eq!(AgentsMdError::InvalidCwd.message(), "AGENTS.md cwd must be a checkout-relative directory");
    assert_eq!(
        AgentsMdError::Host("boom".into()).message(),
        "Workspace Host failed while reading AGENTS.md: boom"
    );
}

#[test]
fn the_override_file_is_read_first_and_wins() {
    match agents_read_step("src", None) {
        AgentsReadStep::Read(path) => assert_eq!(path, "src/AGENTS.override.md"),
        AgentsReadStep::Found(_) => panic!("nothing was read yet"),
    }
    match agents_read_step("", None) {
        AgentsReadStep::Read(path) => assert_eq!(path, "AGENTS.override.md"),
        AgentsReadStep::Found(_) => panic!("nothing was read yet"),
    }
    let found = AgentsFile {
        path: "src/AGENTS.override.md".into(),
        markdown: "override".into(),
        content_hash: "override-hash".into(),
    };
    match agents_read_step("src", Some(Some(found))) {
        AgentsReadStep::Found(file) => assert_eq!(file.path, "src/AGENTS.override.md"),
        AgentsReadStep::Read(_) => panic!("the ordinary file must not be read"),
    }
    match agents_read_step("src", Some(None)) {
        AgentsReadStep::Read(path) => assert_eq!(path, "src/AGENTS.md"),
        AgentsReadStep::Found(_) => panic!("no override was found"),
    }
}

#[test]
fn empty_snapshots_hash_the_empty_layer_list() {
    let snapshot = AgentsMdAssembly::new(5).into_snapshot();
    assert!(snapshot.layers.is_empty());
    assert_eq!(snapshot.revision, layers_revision("[[],false]"));
    assert_eq!(serialized_layers(&Vec::new(), true), "[[],true]");
}
