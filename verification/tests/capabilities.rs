use hachimi_agent::capabilities::{
    min_option, negotiate_provider_capabilities, validate_dynamic_tools, validate_identifier, validate_registration,
    DynamicToolRegistration, ProviderCapabilities,
};
use hachimi_agent::json::JsonValue;

fn object_schema() -> JsonValue {
    JsonValue::Object(vec![
        ("properties".into(), JsonValue::Object(Vec::new())),
        ("type".into(), JsonValue::String("object".into())),
    ])
}

fn registration(namespace: &str, name: &str) -> DynamicToolRegistration {
    DynamicToolRegistration {
        namespace: namespace.into(),
        name: name.into(),
        description: "test".into(),
        input_schema: object_schema(),
        deferred: false,
        requires_strict_schema: false,
        output_media: vec!["text".into()],
    }
}

#[test]
fn rejects_namespace_features_the_provider_did_not_negotiate() {
    let result = validate_dynamic_tools(
        vec![registration("mcp", "read"), registration("", "plain")],
        ProviderCapabilities { tool_calls: true, text_input: true, ..ProviderCapabilities::default() },
    );
    assert_eq!(result.accepted.len(), 1);
    assert_eq!(result.rejected[0].1.code, "namespace_unsupported");
}

#[test]
fn capability_negotiation_records_structured_degradation() {
    let requested = ProviderCapabilities {
        tool_calls: true,
        parallel_tool_calls: true,
        text_input: true,
        ..ProviderCapabilities::default()
    };
    let actual = ProviderCapabilities { text_input: true, ..ProviderCapabilities::default() };
    let (negotiated, degradation) = negotiate_provider_capabilities(requested, actual);
    assert!(!negotiated.tool_calls);
    assert_eq!(degradation.len(), 2);
}

#[test]
fn rejects_invalid_duplicate_strict_and_unsupported_media_tools() {
    let mut duplicate = registration("mcp", "read");
    duplicate.description = "duplicate".into();
    let mut strict = registration("mcp", "strict");
    strict.requires_strict_schema = true;
    let mut image = registration("mcp", "image");
    image.output_media = vec!["image".into()];
    let result = validate_dynamic_tools(
        vec![
            registration("mcp", "read"),
            duplicate,
            registration("system", "reserved"),
            registration("mcp", "bad/name"),
            strict,
            image,
        ],
        ProviderCapabilities {
            tool_calls: true,
            namespaced_tools: true,
            text_input: true,
            ..ProviderCapabilities::default()
        },
    );
    assert_eq!(result.accepted.len(), 1);
    let codes = result.rejected.iter().map(|(_, error)| error.code.as_str()).collect::<Vec<_>>();
    assert!(codes.contains(&"duplicate_tool_name"));
    assert!(codes.contains(&"reserved_namespace"));
    assert!(codes.contains(&"invalid_identifier"));
    assert!(codes.contains(&"strict_schema_unsupported"));
    assert!(codes.contains(&"output_media_unsupported"));
}

#[test]
fn negotiation_keeps_what_both_sides_support_and_the_smaller_limits() {
    let requested = ProviderCapabilities {
        tool_calls: true,
        text_input: true,
        context_window: Some(100),
        max_output_tokens: None,
        ..ProviderCapabilities::default()
    };
    let actual = ProviderCapabilities {
        tool_calls: true,
        text_input: true,
        image_input: true,
        context_window: Some(50),
        max_output_tokens: Some(10),
        ..ProviderCapabilities::default()
    };
    let (negotiated, degradation) = negotiate_provider_capabilities(requested, actual);
    assert!(negotiated.tool_calls && negotiated.text_input);
    assert!(!negotiated.image_input);
    assert_eq!(negotiated.context_window, Some(50));
    assert_eq!(negotiated.max_output_tokens, Some(10));
    assert!(degradation.is_empty());
}

#[test]
fn degradation_names_each_lost_capability() {
    let requested = ProviderCapabilities { image_input: true, ..ProviderCapabilities::default() };
    let (_, degradation) = negotiate_provider_capabilities(requested, ProviderCapabilities::default());
    assert_eq!(degradation.len(), 1);
    assert_eq!(degradation[0].capability, "image_input");
}

#[test]
fn smaller_limit_wins() {
    assert_eq!(min_option(Some(3), Some(7)), Some(3));
    assert_eq!(min_option(None, Some(7)), Some(7));
    assert_eq!(min_option(Some(3), None), Some(3));
    assert_eq!(min_option(None, None), None);
}

#[test]
fn identifiers_are_ascii_words_within_the_byte_limit() {
    assert!(validate_identifier("read_file-2", "name", 64, false).is_ok());
    let error = validate_identifier("bad/name", "name", 64, false).unwrap_err();
    assert_eq!(error.code, "invalid_identifier");
    assert_eq!(error.field, "name");
    assert_eq!(error.message, "identifier must be bounded ASCII letters, digits, underscore, or hyphen");
    assert!(validate_identifier("", "name", 64, false).is_err());
    assert!(validate_identifier("", "namespace", 64, true).is_ok());
    assert_eq!(validate_identifier("abcdef", "namespace", 5, false).unwrap_err().field, "namespace");
}

#[test]
fn deferred_tools_and_non_object_schemas_are_rejected() {
    let provider = ProviderCapabilities { namespaced_tools: true, ..ProviderCapabilities::default() };
    let mut deferred = registration("mcp", "later");
    deferred.deferred = true;
    assert_eq!(
        validate_registration(&deferred, provider, &Vec::new()).expect("rejected").code,
        "deferred_tool_unsupported"
    );
    let mut schema = registration("mcp", "schema");
    schema.input_schema = JsonValue::Array(Vec::new());
    assert_eq!(
        validate_registration(&schema, provider, &Vec::new()).expect("rejected").code,
        "invalid_input_schema"
    );
    assert!(validate_registration(&registration("", "plain"), provider, &Vec::new()).is_none());
}

#[test]
fn image_output_is_accepted_when_images_are_supported() {
    let mut image = registration("", "image");
    image.output_media = vec!["image".into()];
    let provider =
        ProviderCapabilities { tool_calls: true, image_input: true, ..ProviderCapabilities::default() };
    assert!(validate_registration(&image, provider, &Vec::new()).is_none());
    assert_eq!(
        validate_registration(&image, provider, &vec!["image".to_owned()]).expect("duplicate").code,
        "duplicate_tool_name"
    );
}
