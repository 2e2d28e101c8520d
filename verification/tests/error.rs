use onec_buddy_mcp::error::{
    ClientCallError, ConfigError, ProtocolFailure, ProtocolFailureKind, ToolFailure,
    ToolFailureKind,
};
use rmcp::model::ErrorCode;

#[test]
fn lower_level_failure_cause_is_redacted() {
    let secret = "Authorization: DO_NOT_LEAK";
    let failure = ToolFailure::with_cause(
        ToolFailureKind::UpstreamTransport,
        "the request failed safely",
        true,
        std::io::Error::other(secret),
    );

    let rendered = format!("{failure:?} {}", failure.message());
    assert!(rendered.contains("the request failed safely"));
    assert!(!rendered.contains(secret));
    assert!(!rendered.contains("DO_NOT_LEAK"));
}

#[test]
fn protocol_failures_map_to_json_rpc_errors_only() {
    let cases = [
        (
            ProtocolFailureKind::UnknownTool,
            ErrorCode::METHOD_NOT_FOUND,
        ),
        (
            ProtocolFailureKind::InvalidRequest,
            ErrorCode::INVALID_REQUEST,
        ),
        (
            ProtocolFailureKind::InvalidParams,
            ErrorCode::INVALID_PARAMS,
        ),
        (
            ProtocolFailureKind::ResponseTooLarge,
            ErrorCode::INTERNAL_ERROR,
        ),
        (ProtocolFailureKind::Internal, ErrorCode::INTERNAL_ERROR),
    ];

    for (kind, expected_code) in cases {
        let failure = ProtocolFailure::new(kind, "safe protocol error");
        assert_eq!(failure.kind(), kind);
        let error = failure.into_mcp_error();
        assert_eq!(error.code, expected_code.0);
        assert_eq!(error.message, "safe protocol error");
    }
}

#[test]
fn failures_show_a_marker_in_place_of_their_cause() {
    let caused = ToolFailure::with_cause(ToolFailureKind::Internal, "safe", false, 7);
    assert_eq!(
        format!("{caused:?}"),
        "ToolFailure { kind: Internal, safe_message: \"safe\", ambiguous_outcome: false, \
         cause: Some(\"[REDACTED LOWER CAUSE]\") }"
    );
    let plain = ToolFailure::new(ToolFailureKind::Timeout, "late", true);
    assert_eq!(plain.kind(), ToolFailureKind::Timeout);
    assert!(plain.ambiguous_outcome());
    assert_eq!(plain.message(), "late");
    assert_eq!(
        format!("{plain:?}"),
        "ToolFailure { kind: Timeout, safe_message: \"late\", ambiguous_outcome: true, \
         cause: None }"
    );
}

#[test]
fn call_errors_are_shown_by_their_message() {
    assert_eq!(ClientCallError::Cancelled.message(), "operation cancelled");
    let failure = ToolFailure::new(ToolFailureKind::Internal, "broken", false);
    assert_eq!(ClientCallError::Failure(failure).message(), "broken");
}

#[test]
fn configuration_errors_are_shown_by_their_message() {
    let cases = [
        (
            ConfigError::TokenSourceCount,
            "exactly one of ONEC_AI_TOKEN or ONEC_AI_TOKEN_FILE must be set",
        ),
        (ConfigError::InvalidToken, "the token is invalid"),
        (
            ConfigError::InvalidTokenFilePath,
            "the token file path must be absolute and local",
        ),
        (
            ConfigError::InvalidTokenFileKind,
            "the token file must be a regular file and not a link",
        ),
        (
            ConfigError::TokenFileTooLarge,
            "the token file exceeds the 8192-byte limit",
        ),
        (
            ConfigError::TokenFileUnreadable,
            "the token file could not be read",
        ),
        (
            ConfigError::NonUnicodeValue { name: "X" },
            "X is not valid UTF-8",
        ),
        (
            ConfigError::InvalidInteger { name: "X" },
            "X must be an integer",
        ),
        (
            ConfigError::InvalidSetting { name: "X" },
            "X has an invalid value",
        ),
        (
            ConfigError::InvertedToolInputLimits,
            "MCP_TOOL_INPUT_MIN_LENGTH must not exceed MCP_TOOL_INPUT_MAX_LENGTH",
        ),
        (
            ConfigError::InvalidLogFilter,
            "RUST_LOG is not a valid tracing filter",
        ),
        (
            ConfigError::UnsupportedBaseUrl,
            "ONEC_AI_BASE_URL is not supported",
        ),
        (
            ConfigError::TracingInitialization,
            "technical logging could not be initialized",
        ),
    ];
    for (error, message) in cases {
        assert_eq!(error.message(), message);
    }
}
