use onec_buddy_mcp::error::{ClientCallError, ToolFailure, ToolFailureKind};
use onec_buddy_mcp::json::{Json, JsonObject};
use onec_buddy_mcp::json_text::parse_json;
use onec_buddy_mcp::limits::INTERNAL_TOOL_STEPS_MAX;
use onec_buddy_mcp::naparnik::client::tool_results_body;
use onec_buddy_mcp::naparnik::exchange::{
    exact_first, exact_last, update_parent_from_response, RoundStep, StandardExchange,
};
use onec_buddy_mcp::naparnik::response::{AssistantResponse, ResponseState};
use onec_buddy_mcp::naparnik::types::Conversation;

const EXACT_TOOL: &str = "mcp__syntax-checker__validate";

fn answer(event: &str) -> AssistantResponse {
    let mut state = ResponseState::default();
    assert!(state.apply_json_event(event).unwrap(), "{event}");
    state.finish().unwrap()
}

fn calling(uuid: &str, calls: &str) -> AssistantResponse {
    answer(&format!(
        r#"{{"uuid":"{uuid}","role":"assistant","content":{{"tool_calls":[{calls}]}},"finished":true}}"#
    ))
}

fn saying(uuid: &str, text: &str) -> AssistantResponse {
    answer(&format!(
        r#"{{"uuid":"{uuid}","role":"assistant","content":{{"content":"{text}"}},"finished":true}}"#
    ))
}

fn conversation() -> Conversation {
    Conversation::new("conversation-1".to_owned(), Some("root-1".to_owned()))
}

fn object(text: &str) -> JsonObject {
    match parse_json(text) {
        Some(Json::Object(object)) => object,
        _ => unreachable!("object literal"),
    }
}

fn failure(error: ClientCallError) -> ToolFailure {
    match error {
        ClientCallError::Failure(failure) => failure,
        ClientCallError::Cancelled => panic!("unexpected cancellation"),
    }
}

#[test]
fn standard_mode_processes_every_tool_call_in_order_and_continues_to_final_text() {
    let mut exchange = StandardExchange::new(conversation());
    let first = calling(
        "assistant-1",
        r#"{"id":"first","function":{"name":"TaskResult","arguments":"{\"result\":\"done\"}"}},
           {"id":"second","function":{"name":"unsupported","arguments":{}}}"#,
    );
    let RoundStep::SendResults(results) = exchange.round(&first).unwrap() else {
        panic!("results must be sent");
    };
    let body = tool_results_body(exchange.conversation(), &results).unwrap();
    let expected = r#"{
        "role": "tool",
        "content": [
            {"status":"accepted","tool_call_id":"first","content":null},
            {
                "status":"rejected",
                "tool_call_id":"second",
                "content":{"error":"unsupported internal tool"}
            }
        ],
        "parent_uuid": "assistant-1"
    }"#;
    assert_eq!(
        serde_json::from_slice::<serde_json::Value>(&body).unwrap(),
        serde_json::from_str::<serde_json::Value>(expected).unwrap()
    );

    let last = saying("assistant-2", "final answer");
    assert!(matches!(exchange.round(&last), Ok(RoundStep::Finished)));
    assert_eq!(exchange.conversation().parent_uuid(), Some("assistant-2"));
    assert_eq!(exchange.into_response().text(), "final answer");
}

#[test]
fn direct_mode_rejects_extra_or_different_calls_without_a_fallback_request() {
    let first = calling(
        "assistant-1",
        r#"{"id":"first","function":{"name":"mcp__syntax-checker__validate","arguments":{}}},
           {"id":"second","function":{"name":"mcp__knowledge-hub__Search_ITS","arguments":{}}}"#,
    );
    let mut conversation = conversation();
    let error = exact_first(&mut conversation, &first, EXACT_TOOL, &JsonObject::new())
        .expect_err("extra exact call must fail");

    assert_eq!(failure(error).kind(), ToolFailureKind::UpstreamProtocol);
    assert_eq!(conversation.parent_uuid(), Some("root-1"));
}

#[test]
fn direct_mode_rejects_different_arguments_before_acknowledgement() {
    let first = calling(
        "assistant-1",
        r#"{"id":"first","function":{"name":"mcp__syntax-checker__validate",
            "arguments":"{\"code\":\"other\",\"extended\":false}"}}"#,
    );
    let mut conversation = conversation();
    let error = exact_first(
        &mut conversation,
        &first,
        EXACT_TOOL,
        &object(r#"{"code":"expected","extended":false}"#),
    )
    .expect_err("different exact arguments must fail");

    assert_eq!(failure(error).kind(), ToolFailureKind::UpstreamProtocol);
}

#[test]
fn direct_mode_answers_the_exact_call_and_combines_both_answers() {
    let first = calling(
        "assistant-1",
        r#"{"id":"first","function":{"name":"mcp__syntax-checker__validate",
            "arguments":{"extended":false,"code":"expected"}}}"#,
    );
    let mut conversation = conversation();
    let results = exact_first(
        &mut conversation,
        &first,
        EXACT_TOOL,
        &object(r#"{"code":"expected","extended":false}"#),
    )
    .unwrap();
    assert_eq!(results.len(), 1);
    assert_eq!(conversation.parent_uuid(), Some("assistant-1"));

    let unexpected = calling(
        "assistant-2",
        r#"{"id":"x","function":{"name":"TaskResult","arguments":{}}}"#,
    );
    let error = failure(exact_last(&mut conversation, &first, &unexpected).unwrap_err());
    assert_eq!(error.kind(), ToolFailureKind::UpstreamProtocol);
    assert_eq!(
        error.message(),
        "the exact internal tool produced an unexpected follow-up call"
    );
    assert_eq!(conversation.parent_uuid(), Some("assistant-1"));

    let last = saying("assistant-2", "checked");
    let response = exact_last(&mut conversation, &first, &last).unwrap();
    assert_eq!(conversation.parent_uuid(), Some("assistant-2"));
    assert_eq!(response.text(), "checked");
    assert_eq!(response.assistant_uuid(), Some("assistant-2"));
    assert!(response.tool_calls().is_empty());
}

#[test]
fn standard_mode_stops_before_acknowledging_an_eleventh_tool_round() {
    let mut exchange = StandardExchange::new(conversation());
    for index in 0..=INTERNAL_TOOL_STEPS_MAX {
        let round = calling(
            &format!("assistant-{index}"),
            &format!(
                r#"{{"id":"call-{index}","function":{{"name":"TaskResult","arguments":{{}}}}}}"#
            ),
        );
        let step = exchange.round(&round);
        if index < INTERNAL_TOOL_STEPS_MAX {
            assert!(matches!(step, Ok(RoundStep::SendResults(results)) if results.len() == 1));
        } else {
            let error = failure(step.expect_err("eleventh internal tool round must fail"));
            assert_eq!(error.kind(), ToolFailureKind::LimitExceeded);
        }
    }
}

#[test]
fn answers_without_an_identifier_keep_the_parent() {
    let mut conversation = conversation();
    let silent = answer(r#"{"role":"assistant","content":{"content":"x"},"finished":true}"#);
    update_parent_from_response(&mut conversation, &silent).unwrap();
    assert_eq!(conversation.parent_uuid(), Some("root-1"));
}
