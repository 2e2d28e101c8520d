//! Safe tool and protocol error boundaries.

use vstd::prelude::*;

use crate::strings::concat_text;

verus! {

/// Why the configuration was refused.
#[derive(Debug, PartialEq, Eq)]
pub enum ConfigError {
    TokenSourceCount,
    InvalidToken,
    InvalidTokenFilePath,
    InvalidTokenFileKind,
    TokenFileTooLarge,
    TokenFileUnreadable,
    NonUnicodeValue { name: &'static str },
    InvalidInteger { name: &'static str },
    InvalidSetting { name: &'static str },
    InvertedToolInputLimits,
    InvalidLogFilter,
    UnsupportedBaseUrl,
    TracingInitialization,
}

/// The text that a configuration error is shown as.
pub open spec fn config_error_message(error: ConfigError) -> Seq<char> {
    match error {
        ConfigError::TokenSourceCount =>
            "exactly one of ONEC_AI_TOKEN or ONEC_AI_TOKEN_FILE must be set"@,
        ConfigError::InvalidToken => "the token is invalid"@,
        ConfigError::InvalidTokenFilePath => "the token file path must be absolute and local"@,
        ConfigError::InvalidTokenFileKind =>
            "the token file must be a regular file and not a link"@,
        ConfigError::TokenFileTooLarge => "the token file exceeds the 8192-byte limit"@,
        ConfigError::TokenFileUnreadable => "the token file could not be read"@,
        ConfigError::NonUnicodeValue { name } => name@ + " is not valid UTF-8"@,
        ConfigError::InvalidInteger { name } => name@ + " must be an integer"@,
        ConfigError::InvalidSetting { name } => name@ + " has an invalid value"@,
        ConfigError::InvertedToolInputLimits =>
            "MCP_TOOL_INPUT_MIN_LENGTH must not exceed MCP_TOOL_INPUT_MAX_LENGTH"@,
        ConfigError::InvalidLogFilter => "RUST_LOG is not a valid tracing filter"@,
        ConfigError::UnsupportedBaseUrl => "ONEC_AI_BASE_URL is not supported"@,
        ConfigError::TracingInitialization => "technical logging could not be initialized"@,
    }
}

impl ConfigError {
    /// The text that the error is shown as.
    pub fn message(&self) -> (res: String)
        ensures
            res@ == config_error_message(*self),
    {
        match self {
            ConfigError::TokenSourceCount =>
                "exactly one of ONEC_AI_TOKEN or ONEC_AI_TOKEN_FILE must be set".to_owned(),
            ConfigError::InvalidToken => "the token is invalid".to_owned(),
            ConfigError::InvalidTokenFilePath =>
                "the token file path must be absolute and local".to_owned(),
            ConfigError::InvalidTokenFileKind =>
                "the token file must be a regular file and not a link".to_owned(),
            ConfigError::TokenFileTooLarge =>
                "the token file exceeds the 8192-byte limit".to_owned(),
            ConfigError::TokenFileUnreadable => "the token file could not be read".to_owned(),
            ConfigError::NonUnicodeValue { name } => concat_text(name, " is not valid UTF-8"),
            ConfigError::InvalidInteger { name } => concat_text(name, " must be an integer"),
            ConfigError::InvalidSetting { name } => concat_text(name, " has an invalid value"),
            ConfigError::InvertedToolInputLimits =>
                "MCP_TOOL_INPUT_MIN_LENGTH must not exceed MCP_TOOL_INPUT_MAX_LENGTH".to_owned(),
            ConfigError::InvalidLogFilter => "RUST_LOG is not a valid tracing filter".to_owned(),
            ConfigError::UnsupportedBaseUrl => "ONEC_AI_BASE_URL is not supported".to_owned(),
            ConfigError::TracingInitialization =>
                "technical logging could not be initialized".to_owned(),
        }
    }
}

/// What kind of failure a tool call ended with.
#[derive(Clone, Copy, Debug, PartialEq, Eq, Structural)]
pub enum ToolFailureKind {
    InvalidArguments,
    UpstreamTransport,
    UpstreamStatus,
    UpstreamProtocol,
    LimitExceeded,
    Timeout,
    Internal,
}

/// A failed tool call: what the caller may be told of it, and whether the service may
/// have acted all the same. Of a lower cause only its existence is kept.
#[derive(Debug)]
pub struct ToolFailure {
    kind: ToolFailureKind,
    safe_message: &'static str,
    ambiguous_outcome: bool,
    cause: Option<&'static str>,
}

/// What there is to know of a [`ToolFailure`].
pub struct FailureView {
    pub kind: ToolFailureKind,
    pub message: Seq<char>,
    pub ambiguous: bool,
    pub caused: bool,
}

impl View for ToolFailure {
    type V = FailureView;

    closed spec fn view(&self) -> FailureView {
        FailureView {
            kind: self.kind,
            message: self.safe_message@,
            ambiguous: self.ambiguous_outcome,
            caused: self.cause is Some,
        }
    }
}

impl ToolFailure {
    pub fn new(kind: ToolFailureKind, safe_message: &'static str, ambiguous_outcome: bool) -> (res:
        Self)
        ensures
            res@ == (FailureView {
                kind,
                message: safe_message@,
                ambiguous: ambiguous_outcome,
                caused: false,
            }),
    {
        Self { kind, safe_message, ambiguous_outcome, cause: None }
    }

    /// A failure with a lower cause, which is dropped: nothing of it can be shown.
    pub fn with_cause<E>(
        kind: ToolFailureKind,
        safe_message: &'static str,
        ambiguous_outcome: bool,
        cause: E,
    ) -> (res: Self)
        ensures
            res@ == (FailureView {
                kind,
                message: safe_message@,
                ambiguous: ambiguous_outcome,
                caused: true,
            }),
    {
        Self { kind, safe_message, ambiguous_outcome, cause: Some("[REDACTED LOWER CAUSE]") }
    }

    pub fn kind(&self) -> (res: ToolFailureKind)
        ensures
            res == self@.kind,
    {
        self.kind
    }

    pub fn ambiguous_outcome(&self) -> (res: bool)
        ensures
            res == self@.ambiguous,
    {
        self.ambiguous_outcome
    }

    /// The text that the failure is shown as.
    pub fn message(&self) -> (res: &'static str)
        ensures
            res@ == self@.message,
    {
        self.safe_message
    }
}

/// What kind of failure a protocol request ended with.
#[derive(Clone, Copy, Debug, PartialEq, Eq, Structural)]
pub enum ProtocolFailureKind {
    UnknownTool,
    InvalidRequest,
    InvalidParams,
    ResponseTooLarge,
    Internal,
}

/// A refused protocol request and what the client may be told of it.
#[derive(Debug)]
pub struct ProtocolFailure {
    kind: ProtocolFailureKind,
    safe_message: &'static str,
}

/// What there is to know of a [`ProtocolFailure`].
pub struct ProtocolFailureView {
    pub kind: ProtocolFailureKind,
    pub message: Seq<char>,
}

impl View for ProtocolFailure {
    type V = ProtocolFailureView;

    closed spec fn view(&self) -> ProtocolFailureView {
        ProtocolFailureView { kind: self.kind, message: self.safe_message@ }
    }
}

/// The JSON-RPC code of a request that is no valid request object.
pub const INVALID_REQUEST: i32 = -32600;

/// The JSON-RPC code of a method that does not exist.
pub const METHOD_NOT_FOUND: i32 = -32601;

/// The JSON-RPC code of invalid parameters.
pub const INVALID_PARAMS: i32 = -32602;

/// The JSON-RPC code of an internal error.
pub const INTERNAL_ERROR: i32 = -32603;

/// A JSON-RPC error without further data.
#[derive(Debug)]
pub struct McpError {
    pub code: i32,
    pub message: &'static str,
}

/// The JSON-RPC code that stands for a kind of protocol failure.
pub open spec fn protocol_code(kind: ProtocolFailureKind) -> i32 {
    match kind {
        ProtocolFailureKind::UnknownTool => METHOD_NOT_FOUND,
        ProtocolFailureKind::InvalidRequest => INVALID_REQUEST,
        ProtocolFailureKind::InvalidParams => INVALID_PARAMS,
        ProtocolFailureKind::ResponseTooLarge => INTERNAL_ERROR,
        ProtocolFailureKind::Internal => INTERNAL_ERROR,
    }
}

impl ProtocolFailure {
    pub fn new(kind: ProtocolFailureKind, safe_message: &'static str) -> (res: Self)
        ensures
            res@ == (ProtocolFailureView { kind, message: safe_message@ }),
    {
        Self { kind, safe_message }
    }

    pub fn kind(&self) -> (res: ProtocolFailureKind)
        ensures
            res == self@.kind,
    {
        self.kind
    }

    /// The JSON-RPC error that the client gets.
    pub fn into_mcp_error(self) -> (res: McpError)
        ensures
            res.code == protocol_code(self@.kind),
            res.message@ == self@.message,
    {
        let code: i32 = match self.kind {
            ProtocolFailureKind::UnknownTool => METHOD_NOT_FOUND,
            ProtocolFailureKind::InvalidRequest => INVALID_REQUEST,
            ProtocolFailureKind::InvalidParams => INVALID_PARAMS,
            ProtocolFailureKind::ResponseTooLarge | ProtocolFailureKind::Internal => INTERNAL_ERROR,
        };
        McpError { code, message: self.safe_message }
    }
}

/// How a call to the service ended without a result.
#[derive(Debug)]
pub enum ClientCallError {
    Cancelled,
    Failure(ToolFailure),
}

/// What there is to know of a [`ClientCallError`].
pub enum CallErrorView {
    Cancelled,
    Failure(FailureView),
}

impl View for ClientCallError {
    type V = CallErrorView;

    open spec fn view(&self) -> CallErrorView {
        match self {
            ClientCallError::Cancelled => CallErrorView::Cancelled,
            ClientCallError::Failure(failure) => CallErrorView::Failure(failure@),
        }
    }
}

impl ClientCallError {
    /// The text that the error is shown as.
    pub fn message(&self) -> (res: &'static str)
        ensures
            res@ == (match self@ {
                CallErrorView::Cancelled => "operation cancelled"@,
                CallErrorView::Failure(failure) => failure.message,
            }),
    {
        match self {
            ClientCallError::Cancelled => "operation cancelled",
            ClientCallError::Failure(failure) => failure.message(),
        }
    }
}

/// A breach of the protocol by the service.
pub open spec fn protocol_breach(message: Seq<char>) -> FailureView {
    FailureView { kind: ToolFailureKind::UpstreamProtocol, message, ambiguous: false, caused: false }
}

/// A breach of the protocol by the service, with a lower cause.
pub open spec fn caused_protocol_breach(message: Seq<char>) -> FailureView {
    FailureView { kind: ToolFailureKind::UpstreamProtocol, message, ambiguous: false, caused: true }
}

/// A size or count over its limit.
pub open spec fn limit_breach(message: Seq<char>) -> FailureView {
    FailureView { kind: ToolFailureKind::LimitExceeded, message, ambiguous: false, caused: false }
}

/// A name that cannot be understood is told apart from a request, from its parameters and
/// from the server's own failures.
pub proof fn protocol_failures_have_codes(kind: ProtocolFailureKind)
    ensures
        protocol_code(kind) == (match kind {
            ProtocolFailureKind::UnknownTool => -32601i32,
            ProtocolFailureKind::InvalidRequest => -32600i32,
            ProtocolFailureKind::InvalidParams => -32602i32,
            ProtocolFailureKind::ResponseTooLarge | ProtocolFailureKind::Internal => -32603i32,
        }),
{
}

/// What is wrong with a setting is told with its name first, and then what is wrong.
pub proof fn setting_errors_name_the_setting(name: &'static str)
    ensures
        ({
            let n = name@.len() as int;
            let value = config_error_message(ConfigError::InvalidSetting { name });
            let integer = config_error_message(ConfigError::InvalidInteger { name });
            let encoding = config_error_message(ConfigError::NonUnicodeValue { name });
            &&& value.take(n) == name@ && integer.take(n) == name@ && encoding.take(n) == name@
            &&& value.skip(n) == " has an invalid value"@
            &&& integer.skip(n) == " must be an integer"@
            &&& encoding.skip(n) == " is not valid UTF-8"@
        }),
{
    let n = name@.len() as int;
    assert((name@ + " has an invalid value"@).take(n) =~= name@);
    assert((name@ + " must be an integer"@).take(n) =~= name@);
    assert((name@ + " is not valid UTF-8"@).take(n) =~= name@);
    assert((name@ + " has an invalid value"@).skip(n) =~= " has an invalid value"@);
    assert((name@ + " must be an integer"@).skip(n) =~= " must be an integer"@);
    assert((name@ + " is not valid UTF-8"@).skip(n) =~= " is not valid UTF-8"@);
}

/// What the service does against the protocol and what is over a limit are told apart, with
/// the message as it is; neither leaves the outcome of a call open.
pub proof fn breaches_tell_their_kind(message: Seq<char>)
    ensures
        protocol_breach(message).kind == ToolFailureKind::UpstreamProtocol,
        caused_protocol_breach(message).kind == ToolFailureKind::UpstreamProtocol,
        limit_breach(message).kind == ToolFailureKind::LimitExceeded,
        protocol_breach(message).message == message,
        caused_protocol_breach(message).message == message,
        limit_breach(message).message == message,
        !protocol_breach(message).ambiguous,
        !caused_protocol_breach(message).ambiguous,
        !limit_breach(message).ambiguous,
        !protocol_breach(message).caused,
        caused_protocol_breach(message).caused,
        !limit_breach(message).caused,
{
}

} // verus!
