use hachimi_agent::continuity::{
    bounded_label, bounded_plan, bounded_reference, MAX_LABEL_CHARS, MAX_PLAN_CHARS, MAX_REFERENCE_CHARS,
};

#[test]
fn bounds_plan_and_reference_content() {
    assert_eq!(bounded_plan(&"p".repeat(MAX_PLAN_CHARS + 5)).len(), MAX_PLAN_CHARS);
    assert_eq!(bounded_reference(&"r".repeat(MAX_REFERENCE_CHARS + 5)).len(), MAX_REFERENCE_CHARS);
}

#[test]
fn labels_keep_short_values_and_cut_long_ones() {
    assert_eq!(bounded_label("short"), "short");
    assert_eq!(bounded_label(&"é".repeat(MAX_LABEL_CHARS + 1)).chars().count(), MAX_LABEL_CHARS);
}
