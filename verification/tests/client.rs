use std::time::{Duration, SystemTime};

use onec_buddy_mcp::error::{ClientCallError, ToolFailure, ToolFailureKind};
use onec_buddy_mcp::json::Json;
use onec_buddy_mcp::json_text::parse_json;
use onec_buddy_mcp::limits::{
    CONVERSATION_RESPONSE_MAX_BYTES, ERROR_BODY_MAX_BYTES, UPSTREAM_REQUEST_MAX_BYTES,
};
use onec_buddy_mcp::naparnik::client::{
    body_read_failure, bound_request, check_authorization, check_message_response,
    conversation_url, create_conversation_body, has_event_stream_content_type, interruption_error,
    message_url, open_conversation, request_headers, require_url, retry_delay, serialize_bounded,
    service_url, tool_results_body, user_message_body, wait_until_date, AttemptAction,
    AttemptResult, BodyReader, ErrorBodyDrain, Interruption, Operation, OperationPhase,
    RetryController,
};
use onec_buddy_mcp::naparnik::compat::PRODUCTION_BASE_URL;
use onec_buddy_mcp::naparnik::types::Conversation;

const SECOND: u64 = 1_000_000_000;

fn failure(error: ClientCallError) -> ToolFailure {
    match error {
        ClientCallError::Failure(failure) => failure,
        ClientCallError::Cancelled => panic!("unexpected cancellation"),
    }
}

fn text_field(length: usize) -> Vec<(String, Json)> {
    vec![("value".to_owned(), Json::Text("x".repeat(length)))]
}

fn header(text: &str) -> Vec<Option<String>> {
    vec![Some(text.to_owned())]
}

fn status(code: u16, retry_after: Vec<Option<String>>) -> AttemptResult {
    AttemptResult::Status {
        code,
        retry_after,
        now_nanos: 0,
    }
}

#[test]
fn serialized_request_accepts_exactly_one_mib_and_rejects_one_more_byte() {
    let envelope_bytes = serialize_bounded(&text_field(0)).expect("test JSON").len();
    assert_eq!(envelope_bytes, br#"{"value":""}"#.len());
    let exact = text_field(UPSTREAM_REQUEST_MAX_BYTES - envelope_bytes);
    let exact_body = serialize_bounded(&exact).expect("exactly one MiB is accepted");
    assert_eq!(exact_body.len(), UPSTREAM_REQUEST_MAX_BYTES);

    let oversized = text_field(UPSTREAM_REQUEST_MAX_BYTES - envelope_bytes + 1);
    let error = failure(serialize_bounded(&oversized).expect_err("one extra byte is rejected"));
    assert_eq!(error.kind(), ToolFailureKind::LimitExceeded);
    assert_eq!(error.message(), "the external request exceeds the size limit");

    let error = failure(bound_request(None).unwrap_err());
    assert_eq!(error.kind(), ToolFailureKind::Internal);
    assert_eq!(error.message(), "the external request could not be serialized");
}

#[test]
fn retry_after_supports_seconds_dates_caps_and_ambiguity() {
    let now = SystemTime::UNIX_EPOCH + Duration::from_secs(1_000_000);
    let now_nanos: i128 = 1_000_000 * SECOND as i128;

    assert_eq!(retry_delay(&Vec::new(), 0, now_nanos), SECOND);
    assert_eq!(retry_delay(&Vec::new(), 1, now_nanos), 2 * SECOND);
    assert_eq!(retry_delay(&Vec::new(), 2, now_nanos), 4 * SECOND);

    assert_eq!(retry_delay(&header("120"), 0, now_nanos), 30 * SECOND);

    let past = httpdate::fmt_http_date(now - Duration::from_secs(1));
    assert_eq!(retry_delay(&header(&past), 0, now_nanos), 0);

    let future = httpdate::fmt_http_date(now + Duration::from_secs(12));
    assert_eq!(retry_delay(&header(&future), 0, now_nanos), 12 * SECOND);

    assert_eq!(retry_delay(&header("-1"), 1, now_nanos), 2 * SECOND);

    assert_eq!(
        retry_delay(&header("184467440737095516160"), 1, now_nanos),
        2 * SECOND
    );

    let ambiguous = vec![Some("1".to_owned()), Some("2".to_owned())];
    assert_eq!(retry_delay(&ambiguous, 2, now_nanos), 4 * SECOND);
}

#[test]
fn retry_after_edge_cases_fall_back_or_are_capped() {
    assert_eq!(retry_delay(&Vec::new(), 3, 0), 30 * SECOND);
    assert_eq!(retry_delay(&vec![None], 1, 0), 2 * SECOND);
    assert_eq!(retry_delay(&header(""), 1, 0), 2 * SECOND);
    assert_eq!(retry_delay(&header(" 7\t"), 0, 0), 7 * SECOND);
    assert_eq!(retry_delay(&header("+7"), 1, 0), 2 * SECOND);
    assert_eq!(retry_delay(&header("0"), 2, 0), 0);
    assert_eq!(retry_delay(&header("30"), 0, 0), 30 * SECOND);
    assert_eq!(retry_delay(&header("18446744073709551615"), 0, 0), 30 * SECOND);
    let date = "Thu, 01 Jan 1970 00:00:20 GMT";
    assert_eq!(retry_delay(&header(date), 0, 500_000_000), 19_500_000_000);
    assert_eq!(retry_delay(&header(date), 0, -(100 * SECOND as i128)), 30 * SECOND);
    assert_eq!(wait_until_date(None, 0, 9), 9);
    assert_eq!(wait_until_date(Some(5), 2 * SECOND as i128, 9), 3 * SECOND);
}

#[test]
fn retry_matrix_is_closed_by_operation_and_status() {
    for operation in [Operation::CreateConversation, Operation::Message] {
        assert!(operation.can_retry_status(reqwest::StatusCode::LOCKED.as_u16()));
        assert!(operation.can_retry_status(reqwest::StatusCode::TOO_MANY_REQUESTS.as_u16()));
        assert!(!operation.can_retry_status(reqwest::StatusCode::BAD_REQUEST.as_u16()));
        assert!(!operation.can_retry_status(reqwest::StatusCode::INTERNAL_SERVER_ERROR.as_u16()));
    }

    for status in [
        reqwest::StatusCode::BAD_GATEWAY,
        reqwest::StatusCode::SERVICE_UNAVAILABLE,
        reqwest::StatusCode::GATEWAY_TIMEOUT,
    ] {
        assert!(Operation::CreateConversation.can_retry_status(status.as_u16()));
        assert!(!Operation::Message.can_retry_status(status.as_u16()));
    }
}

#[test]
fn create_conversation_retries_503_three_times_then_succeeds() {
    let mut retries = RetryController::new(Operation::CreateConversation);
    for _ in 0..3 {
        assert!(matches!(
            retries.decide(status(503, header("0"))),
            AttemptAction::RetryAfter(0)
        ));
    }
    assert!(matches!(
        retries.decide(AttemptResult::Succeeded),
        AttemptAction::UseResponse
    ));
    let AttemptAction::Fail(error) = retries.decide(status(503, header("0"))) else {
        panic!("a fourth retry must not happen");
    };
    assert_eq!(failure(error).kind(), ToolFailureKind::UpstreamStatus);
}

#[test]
fn error_statuses_are_not_retried() {
    for (operation, code) in [
        (Operation::CreateConversation, 400),
        (Operation::CreateConversation, 302),
        (Operation::Message, 503),
    ] {
        let AttemptAction::Fail(error) =
            RetryController::new(operation).decide(status(code, Vec::new()))
        else {
            panic!("status {code} must not be retried");
        };
        let failure = failure(error);
        assert_eq!(failure.kind(), ToolFailureKind::UpstreamStatus);
        assert_eq!(failure.message(), "the external service rejected the request");
        assert!(!failure.ambiguous_outcome());
    }
}

#[test]
fn ambiguous_disconnect_after_message_body_is_not_retried() {
    let mut retries = RetryController::new(Operation::Message);
    let AttemptAction::Fail(error) = retries.decide(AttemptResult::Transport {
        connect: false,
        timeout: false,
    }) else {
        panic!("a lost response must not be retried");
    };
    let failure = failure(error);
    assert_eq!(failure.kind(), ToolFailureKind::UpstreamTransport);
    assert_eq!(failure.message(), "the external service request failed");
    assert!(failure.ambiguous_outcome());
}

#[test]
fn failed_connections_are_retried_with_growing_delays() {
    let mut retries = RetryController::new(Operation::Message);
    for seconds in [1, 2, 4] {
        let action = retries.decide(AttemptResult::Transport {
            connect: true,
            timeout: true,
        });
        assert!(matches!(action, AttemptAction::RetryAfter(nanos) if nanos == seconds * SECOND));
    }
    let AttemptAction::Fail(error) = retries.decide(AttemptResult::Transport {
        connect: true,
        timeout: true,
    }) else {
        panic!("a fourth retry must not happen");
    };
    let failure = failure(error);
    assert_eq!(failure.kind(), ToolFailureKind::Timeout);
    assert!(!failure.ambiguous_outcome());
}

#[test]
fn deadline_and_cancellation_stop_the_request() {
    let timeout = failure(interruption_error(
        Interruption::DeadlinePassed,
        OperationPhase::InProgress,
    ));
    assert_eq!(timeout.kind(), ToolFailureKind::Timeout);
    assert!(timeout.ambiguous_outcome());
    assert_eq!(timeout.message(), "the external operation exceeded its deadline");

    let waiting = failure(interruption_error(
        Interruption::DeadlinePassed,
        OperationPhase::WaitingToRetry,
    ));
    assert_eq!(waiting.kind(), ToolFailureKind::Timeout);
    assert!(!waiting.ambiguous_outcome());
    assert_eq!(
        waiting.message(),
        "the external operation exceeded its deadline while waiting to retry"
    );

    for phase in [OperationPhase::InProgress, OperationPhase::WaitingToRetry] {
        assert!(matches!(
            interruption_error(Interruption::Cancelled, phase),
            ClientCallError::Cancelled
        ));
    }
}

#[test]
fn message_requires_event_stream_content_type() {
    let error = failure(
        check_message_response(Some("application/json")).expect_err("wrong content type must fail"),
    );
    assert_eq!(error.kind(), ToolFailureKind::UpstreamProtocol);
    assert_eq!(error.message(), "the service returned a non-SSE response");
    assert!(check_message_response(None).is_err());
    assert!(check_message_response(Some("text/event-stream; charset=utf-8")).is_ok());
    assert!(has_event_stream_content_type(Some(" Text/EVENT-Stream\t;x;y")));
    assert!(!has_event_stream_content_type(Some("")));
    assert!(!has_event_stream_content_type(Some(";text/event-stream")));
    assert!(!has_event_stream_content_type(Some("text/event-streams")));
}

#[test]
fn create_conversation_sends_the_exact_pinned_request() {
    let headers = request_headers("*/*", "test-placeholder-not-a-real-token");
    let expected = [
        ("accept", "*/*"),
        ("accept-charset", "utf-8"),
        ("accept-encoding", "gzip, deflate, br"),
        ("accept-language", "ru-ru,en-us;q=0.8,en;q=0.7"),
        ("authorization", "test-placeholder-not-a-real-token"),
        ("origin", "https://code.1c.ai"),
        ("referer", "https://code.1c.ai/chat/"),
        ("content-type", "application/json; charset=utf-8"),
        ("session-id", ""),
        (
            "user-agent",
            "Mozilla/5.0 (Windows NT 10.0; Win64; x64) AppleWebKit/620.1 (KHTML, like Gecko) JavaFX/22 Safari/620.1",
        ),
    ];
    assert_eq!(headers.len(), expected.len());
    for ((name, value), (expected_name, expected_value)) in headers.iter().zip(expected) {
        assert_eq!(*name, expected_name);
        assert_eq!(value, expected_value);
    }
    assert_eq!(
        conversation_url("http://127.0.0.1:1234").unwrap(),
        "http://127.0.0.1:1234/chat_api/v1/conversations/"
    );
    let body = create_conversation_body("russian", "bsl").unwrap();
    assert_eq!(
        String::from_utf8(body).unwrap(),
        r#"{"is_chat":true,"skill_name":"custom","ui_language":"russian","programming_language":"bsl"}"#
    );
}

#[test]
fn message_uses_sse_accept_and_current_parent() {
    let headers = request_headers("text/event-stream", "token");
    assert_eq!(headers[0], ("accept", "text/event-stream".to_owned()));
    let conversation = Conversation::new("conversation-1".to_owned(), Some("root-1".to_owned()));
    assert_eq!(
        message_url("http://127.0.0.1:1234", conversation.id()).unwrap(),
        "http://127.0.0.1:1234/chat_api/v1/conversations/conversation-1/messages"
    );
    let tools = vec![parse_json(r#"{"name": "tool-1"}"#).unwrap()];
    let body = user_message_body(&conversation, "question", &tools).unwrap();
    assert_eq!(
        String::from_utf8(body).unwrap(),
        r#"{"role":"user","content":{"content":{"instruction":"question"},"tools":[{"name":"tool-1"}]},"parent_uuid":"root-1"}"#
    );
}

#[test]
fn addresses_are_normalized_and_escaped() {
    assert_eq!(service_url(PRODUCTION_BASE_URL).unwrap(), "https://code.1c.ai/");
    assert_eq!(
        conversation_url(PRODUCTION_BASE_URL).unwrap(),
        "https://code.1c.ai/chat_api/v1/conversations/"
    );
    assert_eq!(
        message_url("https://code.1c.ai/old/path", "a/b ?#я").unwrap(),
        "https://code.1c.ai/chat_api/v1/conversations/a%2Fb%20%3F%23%D1%8F/messages"
    );
    let invalid = service_url("no address").unwrap_err();
    assert_eq!(invalid.kind(), ToolFailureKind::Internal);
    assert_eq!(invalid.message(), "the fixed service address is invalid");
    assert_eq!(
        conversation_url("data:x").unwrap_err().message(),
        "the fixed service path is invalid"
    );
    assert_eq!(
        message_url("data:x", "id").unwrap_err().message(),
        "the service address cannot contain path segments"
    );
    assert_eq!(require_url(Some("u".to_owned()), "m", true).unwrap(), "u");
    assert_eq!(require_url(None, "m", false).unwrap_err().message(), "m");
}

#[test]
fn tool_results_use_the_latest_assistant_uuid_as_parent() {
    let mut conversation =
        Conversation::new("conversation-1".to_owned(), Some("root-1".to_owned()));
    conversation.advance_parent("assistant-1".to_owned());
    let results = vec![
        parse_json(r#"{"tool_call_id": "call-1", "content": "first"}"#).unwrap(),
        parse_json(r#"{"tool_call_id": "call-2", "content": "second"}"#).unwrap(),
    ];
    let body = tool_results_body(&conversation, &results).unwrap();
    assert_eq!(
        String::from_utf8(body).unwrap(),
        r#"{"role":"tool","content":[{"content":"first","tool_call_id":"call-1"},{"content":"second","tool_call_id":"call-2"}],"parent_uuid":"assistant-1"}"#
    );

    let orphan = Conversation::new("conversation-1".to_owned(), None);
    let error = failure(tool_results_body(&orphan, &results).unwrap_err());
    assert_eq!(error.kind(), ToolFailureKind::UpstreamProtocol);
    assert_eq!(
        error.message(),
        "tool results require an assistant message parent"
    );
}

#[test]
fn request_and_conversation_response_limits_are_enforced() {
    let conversation = Conversation::new("conversation-1".to_owned(), None);
    let request_error = failure(
        user_message_body(
            &conversation,
            &"x".repeat(UPSTREAM_REQUEST_MAX_BYTES),
            &Vec::new(),
        )
        .expect_err("serialized request exceeds one MiB"),
    );
    assert_eq!(request_error.kind(), ToolFailureKind::LimitExceeded);

    let exact = vec![b'x'; CONVERSATION_RESPONSE_MAX_BYTES];
    let mut reader = BodyReader::new(CONVERSATION_RESPONSE_MAX_BYTES);
    for chunk in exact.chunks(4096) {
        reader
            .accept_chunk(chunk)
            .expect("a conversation response at the exact limit is accepted");
    }
    let response_error = failure(
        reader
            .accept_chunk(b"x")
            .expect_err("conversation response exceeds one MiB"),
    );
    assert_eq!(response_error.kind(), ToolFailureKind::LimitExceeded);
    assert_eq!(
        response_error.message(),
        "the external response exceeds the size limit"
    );
    assert_eq!(reader.into_body(), exact);

    let lost = failure(body_read_failure());
    assert_eq!(lost.kind(), ToolFailureKind::UpstreamTransport);
    assert!(lost.ambiguous_outcome());
}

#[test]
fn error_bodies_are_drained_up_to_their_limit() {
    let mut drain = ErrorBodyDrain::new();
    assert!(drain.accept_chunk(ERROR_BODY_MAX_BYTES - 1));
    assert!(drain.accept_chunk(0));
    assert!(!drain.accept_chunk(1));
    assert!(!ErrorBodyDrain::new().accept_chunk(ERROR_BODY_MAX_BYTES));
    assert!(!ErrorBodyDrain::new().accept_chunk(ERROR_BODY_MAX_BYTES + 1));
}

#[test]
fn tokens_must_fit_in_a_header() {
    for accepted in ["", "token", "a\tb", "токен"] {
        assert!(check_authorization(accepted).is_ok(), "{accepted:?}");
    }
    for rejected in ["a\nb", "a\rb", "a\0", "a\u{7f}"] {
        let failure = check_authorization(rejected).unwrap_err();
        assert_eq!(failure.kind(), ToolFailureKind::InvalidArguments);
        assert_eq!(
            failure.message(),
            "the configured token cannot be used as an HTTP authorization value"
        );
    }
}

#[test]
fn every_create_call_receives_fresh_conversation_state() {
    let first = open_conversation(Some(("conversation-1".to_owned(), None))).unwrap();
    let second = open_conversation(Some((
        "conversation-2".to_owned(),
        Some("root-2".to_owned()),
    )))
    .unwrap();

    assert_eq!(first.id(), "conversation-1");
    assert_eq!(first.parent_uuid(), None);
    assert_eq!(second.id(), "conversation-2");
    assert_eq!(second.parent_uuid(), Some("root-2"));

    for invalid in [
        None,
        Some((String::new(), None)),
        Some(("id".to_owned(), Some(String::new()))),
    ] {
        let error = failure(open_conversation(invalid).unwrap_err());
        assert_eq!(error.kind(), ToolFailureKind::UpstreamProtocol);
        assert_eq!(error.message(), "the conversation response is incompatible");
    }
}
