use hachimi_agent::runs::WorkloadKind;
use hachimi_agent::skills::{
    activation_workload, skill_is_active, skill_page, skill_read_message, skill_read_refusal, skill_read_window,
    WorkloadResolutionSource,
};
use hachimi_agent::step::SkillActivation;

#[test]
fn catalog_pages_are_bounded() {
    assert_eq!(skill_page(None, None, 120), (0, 50, Some(50)));
    assert_eq!(skill_page(Some(100), Some(500), 120), (100, 120, None));
    assert_eq!(skill_page(Some(10), Some(0), 120), (10, 11, Some(11)));
    assert_eq!(skill_page(Some(200), None, 120), (120, 120, None));
    assert_eq!(skill_page(None, None, 0), (0, 0, None));
}

#[test]
fn resources_need_an_active_entry_revision() {
    let activations = vec![SkillActivation { skill_id: "office".into(), content_revision: "r2".into() }];
    assert!(skill_is_active(&activations, "office", "r2"));
    assert!(!skill_is_active(&activations, "office", "r1"));
    assert_eq!(
        skill_read_refusal(false, false, true),
        Some("activate the current SKILL.md revision before reading referenced resources")
    );
    assert_eq!(skill_read_refusal(true, false, false), Some("Skill policy requires explicit user selection"));
    assert_eq!(skill_read_refusal(true, false, true), None);
    assert_eq!(skill_read_refusal(false, true, false), None);
}

#[test]
fn confident_classifications_select_the_workload() {
    assert_eq!(
        activation_workload(10_000, WorkloadKind::Office, true, WorkloadKind::General, WorkloadResolutionSource::GeneralFallback),
        (WorkloadKind::Office, WorkloadResolutionSource::BuiltInSkill)
    );
    assert_eq!(
        activation_workload(7_500, WorkloadKind::Coding, false, WorkloadKind::General, WorkloadResolutionSource::GeneralFallback),
        (WorkloadKind::Coding, WorkloadResolutionSource::StructuredClassification)
    );
    assert_eq!(
        activation_workload(7_499, WorkloadKind::Coding, false, WorkloadKind::Office, WorkloadResolutionSource::UserOverride),
        (WorkloadKind::Office, WorkloadResolutionSource::UserOverride)
    );
    assert_eq!(
        activation_workload(9_000, WorkloadKind::General, true, WorkloadKind::Coding, WorkloadResolutionSource::UserOverride),
        (WorkloadKind::Coding, WorkloadResolutionSource::UserOverride)
    );
}

#[test]
fn reads_return_a_window_of_lines() {
    let content = "one\ntwo\r\nthree\nfour\n";
    let window = skill_read_window(content, Some(2), Some(2));
    assert_eq!(window.text, "two\nthree");
    assert_eq!((window.start_line, window.returned_lines, window.total_lines), (2, 2, 4));
    assert!(window.truncated);
    let all = skill_read_window(content, None, None);
    assert_eq!(all.text, "one\ntwo\nthree\nfour");
    assert!(!all.truncated);
    let past = skill_read_window(content, Some(9), Some(5));
    assert_eq!((past.text.as_str(), past.returned_lines), ("", 0));
    assert_eq!(skill_read_window(content, Some(0), Some(1)).text, "one");
    let long = "x".repeat(70_000);
    let cut = skill_read_window(&long, None, None);
    assert_eq!(cut.text.chars().count(), 65_536);
    assert!(cut.truncated);
}

#[test]
fn read_messages_name_the_skill_file() {
    assert_eq!(
        skill_read_message("built-in/office", "SKILL.md", "r2", "body"),
        "Untrusted Skill guidance built-in/office:SKILL.md (revision r2):\nbody"
    );
}

#[test]
fn skill_tools_read_only_and_reads_are_serial() {
    let list = hachimi_agent::skills::skills_list_descriptor();
    let read = hachimi_agent::skills::skills_read_descriptor();
    assert_eq!(list.name, hachimi_agent::skills::SKILLS_LIST_TOOL);
    assert_eq!(read.name, hachimi_agent::skills::SKILLS_READ_TOOL);
    assert!(list.parallel_safe);
    assert!(!read.parallel_safe);
    assert_eq!(list.effect, hachimi_agent::security::ToolEffect::ReadOnly);
    assert_eq!(read.required_scopes, vec!["skills.use".to_string()]);
    assert_eq!(
        hachimi_agent::json::print_json(&list.input_schema),
        r#"{"additionalProperties":false,"properties":{"cursor":{"default":0,"minimum":0,"type":"integer"},"limit":{"default":50,"maximum":100,"minimum":1,"type":"integer"}},"type":"object"}"#
    );
    assert_eq!(
        hachimi_agent::json::print_json(&read.input_schema),
        r#"{"additionalProperties":false,"properties":{"lineLimit":{"default":300,"maximum":1000,"minimum":1,"type":"integer"},"path":{"default":"SKILL.md","type":"string"},"skillId":{"type":"string"},"startLine":{"default":1,"minimum":1,"type":"integer"}},"required":["skillId"],"type":"object"}"#
    );
}
