use onec_buddy_mcp::config::CallMode;
use onec_buddy_mcp::error::{ClientCallError, ToolFailure, ToolFailureKind};
use onec_buddy_mcp::json::JsonObject;
use onec_buddy_mcp::limits::MCP_FRAME_MAX_BYTES;
use onec_buddy_mcp::mcp::arguments::{CatalogError, CatalogErrorKind};
use onec_buddy_mcp::mcp::catalog::ToolCatalog;
use onec_buddy_mcp::mcp::instruction::ExecutionRoute;
use onec_buddy_mcp::mcp::request_id::RequestId;
use onec_buddy_mcp::mcp::service::{
    admission_limits, answer_text, bounded_tool_result, busy_reply, execution_outcome, fit_answer,
    leave_queue, map_catalog_error, reply_to, CallReply, ExecutionOutcome, QueueEvent, ToolAnswer,
    RESPONSE_TOO_LARGE_MESSAGE,
};
use onec_buddy_mcp::naparnik::response::{AssistantResponse, ResponseState};
use rmcp::model::{CallToolResult, ContentBlock};

fn success(text: String) -> ToolAnswer {
    ToolAnswer {
        text,
        is_error: false,
    }
}

fn frame_length(id: serde_json::Value, answer: &ToolAnswer) -> usize {
    let content = vec![ContentBlock::text(answer.text.clone())];
    let result = if answer.is_error {
        CallToolResult::error(content)
    } else {
        CallToolResult::success(content)
    };
    let mut frame = serde_json::Map::new();
    frame.insert("jsonrpc".to_owned(), "2.0".into());
    frame.insert("id".to_owned(), id);
    frame.insert("result".to_owned(), serde_json::to_value(result).unwrap());
    serde_json::to_vec(&frame).unwrap().len()
}

#[test]
fn admission_capacity_is_execution_capacity_plus_eight() {
    let limits = admission_limits(2);
    assert_eq!(limits.admitted, 10);
    assert_eq!(limits.executing, 2);
}

#[test]
fn oversized_known_tool_result_is_replaced_before_transport_framing() {
    let oversized = success("x".repeat(MCP_FRAME_MAX_BYTES));

    let bounded = bounded_tool_result(oversized, &RequestId::Number(7));

    assert!(frame_length(7.into(), &bounded) <= MCP_FRAME_MAX_BYTES);
    assert!(bounded.is_error);
    assert!(bounded.text.contains("response"));
    assert_eq!(bounded.text, RESPONSE_TOO_LARGE_MESSAGE);
}

#[test]
fn answers_are_kept_up_to_the_exact_frame_limit() {
    for (id, json) in [
        (RequestId::Number(-12), serde_json::Value::from(-12)),
        (RequestId::Text("я".to_owned()), "я".into()),
    ] {
        let room = MCP_FRAME_MAX_BYTES - frame_length(json.clone(), &success(String::new()));
        let exact = success("x".repeat(room));
        assert_eq!(frame_length(json, &exact), MCP_FRAME_MAX_BYTES);
        assert_eq!(bounded_tool_result(exact, &id).text.len(), room);
        let over = success("x".repeat(room + 1));
        assert_eq!(
            bounded_tool_result(over, &id).text,
            RESPONSE_TOO_LARGE_MESSAGE
        );
    }
    let unserialized = fit_answer(success("x".to_owned()), None, Some(Vec::new()));
    assert_eq!(unserialized.text, RESPONSE_TOO_LARGE_MESSAGE);
}

#[test]
fn queue_events_end_a_call_unless_it_gets_a_slot() {
    assert!(leave_queue(QueueEvent::Acquired).is_none());
    assert!(matches!(
        leave_queue(QueueEvent::Cancelled),
        Some(ExecutionOutcome::Cancelled)
    ));
    let Some(ExecutionOutcome::Failure(failure)) = leave_queue(QueueEvent::TimedOut) else {
        panic!("a timeout is a failure");
    };
    assert_eq!(failure.kind(), ToolFailureKind::Timeout);
    assert_eq!(failure.message(), "the execution queue wait timed out");
    let Some(ExecutionOutcome::Failure(failure)) = leave_queue(QueueEvent::Closed) else {
        panic!("a closed queue is a failure");
    };
    assert_eq!(failure.kind(), ToolFailureKind::Internal);
    assert_eq!(failure.message(), "the execution queue is unavailable");
}

#[test]
fn outcomes_follow_the_result_of_the_execution() {
    assert!(matches!(
        execution_outcome(Ok("text".to_owned())),
        ExecutionOutcome::Success(text) if text == "text"
    ));
    assert!(matches!(
        execution_outcome(Err(ClientCallError::Cancelled)),
        ExecutionOutcome::Cancelled
    ));
    let failure = ToolFailure::new(ToolFailureKind::Internal, "broken", false);
    assert!(matches!(
        execution_outcome(Err(ClientCallError::Failure(failure))),
        ExecutionOutcome::Failure(failure) if failure.message() == "broken"
    ));
}

#[test]
fn replies_follow_the_outcome() {
    let id = RequestId::Number(1);
    let success = ExecutionOutcome::Success("Ａ\u{0}".to_owned());
    assert!(matches!(
        reply_to(success, false, &id),
        CallReply::Answer(answer) if answer.text == "A" && !answer.is_error
    ));
    let failure = ToolFailure::new(ToolFailureKind::UpstreamStatus, "rejected", false);
    assert!(matches!(
        reply_to(ExecutionOutcome::Failure(failure), false, &id),
        CallReply::Answer(answer) if answer.text == "rejected" && answer.is_error
    ));
    assert!(matches!(
        reply_to(ExecutionOutcome::Cancelled, true, &id),
        CallReply::Silence
    ));
    assert!(matches!(
        reply_to(ExecutionOutcome::Cancelled, false, &id),
        CallReply::Refuse(error) if error.code == -32603 && error.message == "request cancelled"
    ));
    assert!(matches!(
        busy_reply(&id),
        CallReply::Answer(answer)
            if answer.text == "the server is busy; retry later" && answer.is_error
    ));
}

#[test]
fn catalog_refusals_are_protocol_errors_only_for_unknown_tools() {
    let catalog = ToolCatalog::build(1, 10, CallMode::Direct, "", "", "");
    let unknown = catalog.prepare("unknown", &JsonObject::new()).unwrap_err();
    assert!(matches!(
        map_catalog_error(&unknown),
        CallReply::Refuse(error) if error.code == -32601 && error.message == "unknown tool"
    ));
    let invalid = catalog.prepare("ask_1c_ai", &JsonObject::new()).unwrap_err();
    assert!(matches!(
        map_catalog_error(&invalid),
        CallReply::Answer(answer)
            if answer.is_error && answer.text == "Ошибка: Вопрос не может быть пустым"
    ));
    let general = CatalogError::new(CatalogErrorKind::LimitExceeded);
    assert_eq!(general.message(), "tool arguments exceed a configured limit");
}

#[test]
fn answers_need_text() {
    let exact = ExecutionRoute::Exact {
        name: "x",
        arguments: JsonObject::new(),
    };
    for route in [&ExecutionRoute::Message, &exact] {
        let error = answer_text(route, &AssistantResponse::default()).unwrap_err();
        assert_eq!(
            error.message(),
            "the assistant response did not contain text"
        );
    }

    let mut state = ResponseState::default();
    state
        .apply_json_event(
            r#"{"role":"tool","render_info":[{"response_markdown":"готово"}],"finished":true}"#,
        )
        .unwrap();
    state
        .apply_json_event(r#"{"role":"assistant","uuid":"a","content":{"content":" текст "}}"#)
        .unwrap();
    let response = state.finish().unwrap();
    assert_eq!(
        answer_text(&ExecutionRoute::Message, &response).unwrap(),
        "текст"
    );
    assert_eq!(answer_text(&exact, &response).unwrap(), "готово\nтекст");
}
