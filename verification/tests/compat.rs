use onec_buddy_mcp::json::{Json, JsonObject};
use onec_buddy_mcp::json_text::{json_string, ordered_json_bytes, parse_json};
use onec_buddy_mcp::naparnik::compat::{
    CompatibilityError, CreateConversationRequest, CreateConversationResponse, ToolMessageRequest,
    UserMessageRequest,
};
use serde_json::Value;

fn assert_shape(fields: Vec<(String, Json)>, expected: &str) {
    let body = ordered_json_bytes(&fields).expect("request must serialize");
    assert_eq!(String::from_utf8(body).unwrap(), expected);
    let value = Json::Object(JsonObject::from_pairs(fields));
    assert!(value.equals(&parse_json(expected).unwrap()), "{expected}");
}

/// The identifiers in a response of the service, if it has the pinned shape.
fn decoded(bytes: &[u8]) -> Option<(String, Option<String>)> {
    let value: Value = serde_json::from_slice(bytes).ok()?;
    let uuid = value.get("uuid")?.as_str()?.to_owned();
    match value.get("root_message_uuid") {
        None | Some(Value::Null) => Some((uuid, None)),
        Some(root) => Some((uuid, Some(root.as_str()?.to_owned()))),
    }
}

#[test]
fn conversation_request_has_the_pinned_shape() {
    let request = CreateConversationRequest::new("russian", "bsl");

    assert_shape(
        request.fields(),
        r#"{"is_chat":true,"skill_name":"custom","ui_language":"russian","programming_language":"bsl"}"#,
    );
}

#[test]
fn conversation_response_requires_string_identifiers_and_ignores_unknown_fields() {
    let parsed = CreateConversationResponse::parse(decoded(
        br#"{"uuid":"conversation-1","root_message_uuid":"root-1","future":true}"#,
    ))
    .expect("known fields are valid");

    assert_eq!(parsed.uuid(), "conversation-1");
    assert_eq!(parsed.root_message_uuid(), Some("root-1"));

    for invalid in [
        br"{}".as_slice(),
        br#"{"uuid":1}"#.as_slice(),
        br#"{"uuid":""}"#.as_slice(),
        br#"{"uuid":"conversation-1","root_message_uuid":1}"#.as_slice(),
        br#"{"uuid":"conversation-1","root_message_uuid":""}"#.as_slice(),
    ] {
        assert!(
            CreateConversationResponse::parse(decoded(invalid)).is_err(),
            "{:?} must violate the pinned contract",
            String::from_utf8_lossy(invalid)
        );
    }
}

#[test]
fn a_conversation_without_a_root_message_is_accepted() {
    let parsed = CreateConversationResponse::parse(Some(("id".to_owned(), None))).unwrap();
    assert_eq!(parsed.root_message_uuid(), None);
    assert_eq!(parsed.into_parts(), ("id".to_owned(), None));
    assert_eq!(
        CompatibilityError.message(),
        "the upstream response violates the pinned compatibility contract"
    );
}

#[test]
fn user_message_contains_instruction_tools_and_parent() {
    let tools = vec![parse_json(r#"{"name":"tool-1"}"#).unwrap()];
    let request = UserMessageRequest::new("explain this", &tools, Some("root-message"));

    assert_shape(
        request.fields(),
        r#"{"role":"user","content":{"content":{"instruction":"explain this"},"tools":[{"name":"tool-1"}]},"parent_uuid":"root-message"}"#,
    );
}

#[test]
fn absent_parent_is_serialized_as_json_null() {
    let tools = Vec::new();
    let request = UserMessageRequest::new("question", &tools, None);
    let fields = JsonObject::from_pairs(request.fields());

    assert!(matches!(fields.get("parent_uuid"), Some(Json::Null)));
}

#[test]
fn tool_message_preserves_all_results_and_assistant_parent() {
    let results = vec![
        parse_json(r#"{"tool_call_id": "call-1", "content": "first"}"#).unwrap(),
        parse_json(r#"{"tool_call_id": "call-2", "content": "second"}"#).unwrap(),
    ];
    let request = ToolMessageRequest::new(&results, "assistant-message");

    let shown: Vec<String> = results.iter().map(|result| json_string(result).unwrap()).collect();
    assert_shape(
        request.fields(),
        &format!(
            r#"{{"role":"tool","content":[{},{}],"parent_uuid":"assistant-message"}}"#,
            shown[0], shown[1]
        ),
    );
}
