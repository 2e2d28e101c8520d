use std::time::Duration;

use onec_buddy_mcp::limits::{
    CONNECT_TIMEOUT, CONVERSATION_RESPONSE_MAX_BYTES, ERROR_BODY_MAX_BYTES,
    HTTP_OPERATION_TIMEOUT, INTERNAL_TOOL_STEPS_MAX, MCP_FRAME_MAX_BYTES, QUEUE_WAIT_TIMEOUT,
    RETRY_AFTER_MAX, SAFE_RETRY_DELAYS, SHUTDOWN_GRACE_PERIOD, SSE_EVENT_MAX_BYTES,
    SSE_EVENT_TIMEOUT, SSE_STREAM_MAX_BYTES, TOKEN_MAX_BYTES, TOOL_CALLS_PER_MESSAGE_MAX,
    TOOL_CALL_TIMEOUT, TOOL_INPUT_MAX_DEFAULT, TOOL_INPUT_MAX_HARD, TOOL_INPUT_MIN_DEFAULT,
    UPSTREAM_REQUEST_MAX_BYTES, WAITING_CALLS_MAX,
};

#[test]
fn fixed_resource_and_time_boundaries_match_the_release_contract() {
    assert_eq!(TOKEN_MAX_BYTES, 8 * 1024);
    assert_eq!(MCP_FRAME_MAX_BYTES, 2 * 1024 * 1024);
    assert_eq!(TOOL_INPUT_MIN_DEFAULT, 4);
    assert_eq!(TOOL_INPUT_MAX_DEFAULT, 100_000);
    assert_eq!(TOOL_INPUT_MAX_HARD, 100_000);
    assert_eq!(UPSTREAM_REQUEST_MAX_BYTES, 1024 * 1024);
    assert_eq!(CONVERSATION_RESPONSE_MAX_BYTES, 1024 * 1024);
    assert_eq!(SSE_EVENT_MAX_BYTES, 1024 * 1024);
    assert_eq!(SSE_STREAM_MAX_BYTES, 8 * 1024 * 1024);
    assert_eq!(ERROR_BODY_MAX_BYTES, 16 * 1024);
    assert_eq!(TOOL_CALLS_PER_MESSAGE_MAX, 16);
    assert_eq!(INTERNAL_TOOL_STEPS_MAX, 10);
    assert_eq!(WAITING_CALLS_MAX, 8);
    assert_eq!(
        Duration::from_secs(CONNECT_TIMEOUT),
        Duration::from_secs(10)
    );
    assert_eq!(
        Duration::from_secs(HTTP_OPERATION_TIMEOUT),
        Duration::from_secs(2 * 60)
    );
    assert_eq!(
        Duration::from_secs(SSE_EVENT_TIMEOUT),
        Duration::from_secs(60)
    );
    assert_eq!(
        Duration::from_secs(RETRY_AFTER_MAX),
        Duration::from_secs(30)
    );
    assert_eq!(
        SAFE_RETRY_DELAYS.map(Duration::from_secs),
        [
            Duration::from_secs(1),
            Duration::from_secs(2),
            Duration::from_secs(4),
        ]
    );
    assert_eq!(
        Duration::from_secs(QUEUE_WAIT_TIMEOUT),
        Duration::from_secs(30)
    );
    assert_eq!(
        Duration::from_secs(TOOL_CALL_TIMEOUT),
        Duration::from_secs(5 * 60)
    );
    assert_eq!(
        Duration::from_secs(SHUTDOWN_GRACE_PERIOD),
        Duration::from_secs(5)
    );
}
