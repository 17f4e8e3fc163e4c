use hachimi_agent::elicitation::{
    answers_to_content, cancel_reply, default_to_answer, field_options, finish_elicitation, integer_answer_text,
    parse_form, start_elicitation, ElicitationStart, FieldKind, McpReply, UserInputAction,
};
use hachimi_agent::json::{parse_json, print_json, JsonValue};

fn json(text: &str) -> JsonValue {
    parse_json(text).expect("valid JSON")
}

fn number(text: &str) -> Option<JsonValue> {
    text.parse::<f64>().ok().map(|value| JsonValue::Number(format!("{value:?}")))
}

fn answers(pairs: &[(&str, &str)]) -> Vec<(String, String)> {
    pairs.iter().map(|(id, value)| (id.to_string(), value.to_string())).collect()
}

fn reply_text(reply: McpReply) -> String {
    match reply {
        McpReply::Reply(value) => print_json(&value),
        other => panic!("unexpected reply {other:?}"),
    }
}

const CONFIRM: &str = r#"{"mode":"form","message":"Allow this request?","requestedSchema":{"type":"object","properties":{"confirmed":{"type":"boolean"}},"required":["confirmed"]}}"#;

#[test]
fn form_round_trip_is_bound_to_run_and_returns_typed_content() {
    let params = json(CONFIRM);
    let start = start_elicitation("elicitation/create", true, Some(("session", "run")), "session", "run", "fixture", &params);
    let ElicitationStart::Ask(form) = start else { panic!("form expected") };
    assert!(form.questions[0].prompt.contains("does not grant permission"));
    assert!(form.questions[0].prompt.starts_with("MCP server fixture requests untrusted data."));
    assert_eq!(form.questions[0].options.len(), 2);
    let reply = finish_elicitation(&form, Some(UserInputAction::Submit), &answers(&[("confirmed", "true")]), number);
    assert_eq!(reply_text(reply), r#"{"action":"accept","content":{"confirmed":true}}"#);
}

#[test]
fn non_interactive_runs_cancel_without_creating_user_input() {
    let start = start_elicitation("elicitation/create", false, None, "session", "run", "fixture", &json("{}"));
    assert!(matches!(start, ElicitationStart::NeedsAttention));
    assert_eq!(
        print_json(&cancel_reply(Some("interactive_input_unavailable"))),
        r#"{"_meta":{"hachimiReason":"interactive_input_unavailable"},"action":"cancel"}"#
    );
}

#[test]
fn explicit_decline_is_returned_without_form_content() {
    let params = json(CONFIRM);
    let ElicitationStart::Ask(form) =
        start_elicitation("elicitation/create", true, Some(("session", "run")), "session", "run", "fixture", &params)
    else {
        panic!("form expected")
    };
    let reply = finish_elicitation(&form, Some(UserInputAction::Decline), &Vec::new(), number);
    assert_eq!(reply_text(reply), r#"{"action":"decline"}"#);
    let cancelled = finish_elicitation(&form, None, &Vec::new(), number);
    assert_eq!(
        reply_text(cancelled),
        r#"{"_meta":{"hachimiReason":"input_cancelled_or_unavailable"},"action":"cancel"}"#
    );
}

#[test]
fn requests_must_be_bound_to_the_current_run() {
    let params = json(CONFIRM);
    let invalid = |start: ElicitationStart| match start {
        ElicitationStart::Respond(McpReply::InvalidRequest(message)) => message,
        other => panic!("unexpected start {other:?}"),
    };
    assert!(matches!(
        start_elicitation("roots/list", true, None, "s", "r", "f", &params),
        ElicitationStart::Respond(McpReply::MethodNotFound)
    ));
    assert_eq!(
        invalid(start_elicitation("elicitation/create", true, None, "s", "r", "f", &params)),
        "elicitation is not bound to an active Run"
    );
    assert_eq!(
        invalid(start_elicitation("elicitation/create", true, Some(("s", "old")), "s", "r", "f", &params)),
        "elicitation Run correlation is stale"
    );
}

#[test]
fn malformed_forms_are_refused_with_their_reason() {
    let error = |text: &str| parse_form("srv", &json(text)).unwrap_err();
    assert_eq!(error("[]"), "elicitation params must be an object");
    assert_eq!(error(r#"{"mode":"url"}"#), "only bounded MCP form elicitation is supported");
    assert_eq!(error(r#"{"message":"  "}"#), "elicitation message is missing");
    assert_eq!(error(r#"{"message":"m"}"#), "elicitation requestedSchema must be an object");
    assert_eq!(error(r#"{"message":"m","requestedSchema":{"type":"array"}}"#), "elicitation schema type must be object");
    assert_eq!(
        error(r#"{"message":"m","requestedSchema":{"type":"object"}}"#),
        "elicitation schema properties are missing"
    );
    assert_eq!(
        error(r#"{"message":"m","requestedSchema":{"type":"object","properties":{}}}"#),
        "elicitation must contain one to three fields"
    );
    assert_eq!(
        error(r#"{"message":"m","requestedSchema":{"type":"object","properties":{"a":{"type":"array"}}}}"#),
        "elicitation field a uses an unsupported type"
    );
    assert_eq!(
        error(r#"{"message":"m","requestedSchema":{"type":"object","properties":{"a":3}}}"#),
        "elicitation field a is not an object"
    );
    assert_eq!(
        error(r#"{"message":"m","requestedSchema":{"type":"object","properties":{"a":{"type":"string","enum":["x","y","z"]}}}}"#),
        "optional elicitation field a has no room for a skip option"
    );
}

#[test]
fn optional_fields_get_a_skip_choice_and_secrets_no_default() {
    let params = json(
        r#"{"message":"Sign in","requestedSchema":{"type":"object","required":["password"],"properties":{
            "password":{"type":"string","format":"password","default":"hunter2"},
            "region":{"type":"string","enum":["eu","us"],"title":"Region","description":"Where to run","default":"eu"}}}}"#,
    );
    let form = parse_form("srv", &params).expect("form");
    assert_eq!(form.fields.len(), 2);
    assert_eq!(form.fields[0].id, "password");
    assert!(!form.fields[0].optional);
    assert!(form.questions[0].secret);
    assert_eq!(form.questions[0].default_answer, None);
    assert!(form.fields[1].optional);
    assert_eq!(form.questions[1].header, "Region");
    assert_eq!(form.questions[1].options.len(), 3);
    assert_eq!(form.questions[1].options[2].label, "Skip");
    assert_eq!(form.questions[1].default_answer.as_deref(), Some("eu"));
    assert!(form.questions[1].prompt.ends_with("Sign in\n\nWhere to run"));
}

#[test]
fn answers_become_typed_content() {
    let params = json(
        r#"{"message":"m","requestedSchema":{"type":"object","required":["count","ratio"],"properties":{
            "count":{"type":"integer"},"note":{"type":"string"},"ratio":{"type":"number"}}}}"#,
    );
    let form = parse_form("srv", &params).expect("form");
    let content = answers_to_content(
        &form,
        &answers(&[("count", "+007"), ("note", "__hachimi_mcp_omit__"), ("ratio", "0.5")]),
        number,
    )
    .expect("content");
    assert_eq!(print_json(&content), r#"{"count":7,"ratio":0.5}"#);
    let error = answers_to_content(&form, &answers(&[("count", "x"), ("ratio", "1")]), number).unwrap_err();
    assert_eq!(error, "elicitation answer for count is not an integer");
    let missing = answers_to_content(&form, &answers(&[("count", "1")]), number).unwrap_err();
    assert_eq!(missing, "elicitation answer for note is missing");
    let later = answers_to_content(&form, &answers(&[("count", "1"), ("count", "-2"), ("note", "n"), ("ratio", "2")]), number)
        .expect("content");
    assert_eq!(print_json(&later), r#"{"count":-2,"note":"n","ratio":2.0}"#);
}

#[test]
fn integer_answers_follow_i64_parsing() {
    assert_eq!(integer_answer_text("42").as_deref(), Some("42"));
    assert_eq!(integer_answer_text("-0").as_deref(), Some("0"));
    assert_eq!(integer_answer_text("-9223372036854775808").as_deref(), Some("-9223372036854775808"));
    assert_eq!(integer_answer_text("9223372036854775808"), None);
    assert_eq!(integer_answer_text("-"), None);
    assert_eq!(integer_answer_text(" 1"), None);
}

#[test]
fn choices_and_defaults() {
    let options = field_options(FieldKind::Boolean, &json("{}")).expect("options");
    assert_eq!((options[0].label.as_str(), options[0].value.as_str()), ("Yes", "true"));
    assert!(field_options(FieldKind::String, &json(r#"{"enum":["a"]}"#)).is_err());
    assert_eq!(
        field_options(FieldKind::String, &json(r#"{"enum":["a",1]}"#)).unwrap_err(),
        "elicitation enum values must be strings"
    );
    assert!(field_options(FieldKind::Integer, &json("{}")).expect("none").is_empty());
    assert_eq!(default_to_answer(Some(&JsonValue::Bool(false))).as_deref(), Some("false"));
    assert_eq!(default_to_answer(Some(&JsonValue::Number("1.5".into()))).as_deref(), Some("1.5"));
    assert_eq!(default_to_answer(Some(&JsonValue::Null)), None);
}
