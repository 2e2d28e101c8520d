//! Requests to the service, and what becomes of its responses.

use reqwest::header::HeaderValue;
use reqwest::Url;
use vstd::prelude::*;
use vstd::utf8::encode_utf8;

use crate::ascii::TAB;
use crate::error::{
    caused_protocol_breach,
    limit_breach,
    protocol_breach,
    CallErrorView,
    FailureView,
};
use crate::error::{ClientCallError, ToolFailure, ToolFailureKind};
use crate::json::{array_view, pair_views, Fields};
use crate::json::Json;
use crate::json_text::ordered_json_bytes;
use crate::json_text::{ordered_bytes, settled_fields};
use crate::limits::{
    ERROR_BODY_MAX_BYTES,
    RETRY_AFTER_MAX,
    SAFE_RETRY_DELAYS,
    UPSTREAM_REQUEST_MAX_BYTES,
};
use crate::naparnik::compat::{
    create_conversation_fields,
    is_usable,
    tool_message_fields,
    user_message_fields,
};
use crate::naparnik::compat::{
    CreateConversationRequest,
    CreateConversationResponse,
    ToolMessageRequest,
    UserMessageRequest,
    CREATE_CONVERSATION_PATH,
    MESSAGE_PATH_SUFFIX,
};
use crate::naparnik::types::Conversation;
use crate::naparnik::types::{optional_text, ConversationView};
use crate::strings::{char_vec, only_digits, parse_digits, same_text, text_of};
use crate::strings::{
    decimal,
    digits_value,
    is_digits,
    trimmed,
    written_numbers_are_read_back,
};

verus! {

pub const ACCEPT_LANGUAGE_VALUE: &'static str = "ru-ru,en-us;q=0.8,en;q=0.7";

pub const USER_AGENT_VALUE: &'static str =
    "Mozilla/5.0 (Windows NT 10.0; Win64; x64) AppleWebKit/620.1 (KHTML, like Gecko) JavaFX/22 Safari/620.1";

/// Nanoseconds in a second.
pub const NANOS_PER_SECOND: u64 = 1_000_000_000;

/// What is asked of the service.
#[derive(Clone, Copy, Debug, PartialEq, Eq, Structural)]
pub enum Operation {
    CreateConversation,
    Message,
}

/// The status with which the service says that a resource is locked.
pub const STATUS_LOCKED: u16 = 423;

/// The status with which the service asks for fewer requests.
pub const STATUS_TOO_MANY_REQUESTS: u16 = 429;

/// The status of a gateway that got an invalid response.
pub const STATUS_BAD_GATEWAY: u16 = 502;

/// The status of a service that is not available.
pub const STATUS_SERVICE_UNAVAILABLE: u16 = 503;

/// The status of a gateway that got no response in time.
pub const STATUS_GATEWAY_TIMEOUT: u16 = 504;

/// A request may be sent again after this status. Where the service may have acted on a
/// message, it may not.
pub open spec fn is_retried_status(operation: Operation, status: u16) -> bool {
    ||| status == STATUS_LOCKED
    ||| status == STATUS_TOO_MANY_REQUESTS
    ||| operation == Operation::CreateConversation && (status == STATUS_BAD_GATEWAY || status
        == STATUS_SERVICE_UNAVAILABLE || status == STATUS_GATEWAY_TIMEOUT)
}

impl Operation {
    /// A request may be sent again after this status.
    pub fn can_retry_status(self, status: u16) -> (res: bool)
        ensures
            res == is_retried_status(self, status),
    {
        status == STATUS_LOCKED || status == STATUS_TOO_MANY_REQUESTS || (self
            == Operation::CreateConversation && (status == STATUS_BAD_GATEWAY || status
            == STATUS_SERVICE_UNAVAILABLE || status == STATUS_GATEWAY_TIMEOUT))
    }
}

/// The seconds since the start of 1970 that a date of HTTP stands for, if it is one.
pub uninterp spec fn http_date(text: Seq<char>) -> Option<u64>;

/// Calls `httpdate::parse_http_date`, whose result depends on the text alone. Its dates
/// are whole seconds, from 1970 on.
#[verifier::external_body]
fn parse_date(text: &str) -> (res: Option<u64>)
    ensures
        res == http_date(text@),
{
    let date = httpdate::parse_http_date(text).ok()?;
    Some(date.duration_since(std::time::UNIX_EPOCH).ok()?.as_secs())
}

/// The value of a `Retry-After` header as far as it is text.
pub open spec fn header_views(values: Seq<Option<String>>) -> Seq<Option<Seq<char>>> {
    values.map_values(|value: Option<String>| optional_text(value))
}

/// How long to wait before the retry of this index where nothing else is said, in
/// nanoseconds.
pub open spec fn fallback_delay(retry_index: nat) -> nat {
    if retry_index < 3 {
        (SAFE_RETRY_DELAYS[retry_index as int] * NANOS_PER_SECOND) as nat
    } else {
        (RETRY_AFTER_MAX * NANOS_PER_SECOND) as nat
    }
}

/// The longest wait that the service can ask for, in nanoseconds.
pub open spec fn longest_delay() -> nat {
    (RETRY_AFTER_MAX * NANOS_PER_SECOND) as nat
}

/// A wait that is no longer than the longest.
pub open spec fn capped(nanos: int) -> nat {
    if nanos <= 0 {
        0
    } else if nanos < longest_delay() {
        nanos as nat
    } else {
        longest_delay()
    }
}

/// How long to wait until a date, by the seconds that it stands for.
pub open spec fn delay_until(date: Option<u64>, now_nanos: int, fallback: nat) -> nat {
    match date {
        Some(seconds) => capped(seconds * NANOS_PER_SECOND - now_nanos),
        None => fallback,
    }
}

/// How long to wait before a retry, in nanoseconds: as long as the service asks for in
/// seconds or by a date, where it asks for one thing and within the longest wait.
pub open spec fn asked_delay(values: Seq<Option<Seq<char>>>, retry_index: nat, now_nanos: int) -> nat {
    let fallback = fallback_delay(retry_index);
    if values.len() != 1 {
        fallback
    } else {
        match values[0] {
            None => fallback,
            Some(text) => if !is_digits(trimmed(text)) {
                delay_until(http_date(trimmed(text)), now_nanos, fallback)
            } else if digits_value(trimmed(text)) > u64::MAX {
                fallback
            } else {
                capped(digits_value(trimmed(text)) * NANOS_PER_SECOND)
            },
        }
    }
}

/// How long to wait until a date, by the seconds that it stands for.
pub fn wait_until_date(date: Option<u64>, now_nanos: i128, fallback: u64) -> (res: u64)
    ensures
        res == delay_until(date, now_nanos as int, fallback as nat),
{
    match date {
        None => fallback,
        Some(seconds) => {
            let longest: i128 = RETRY_AFTER_MAX as i128 * NANOS_PER_SECOND as i128;
            assert(seconds * NANOS_PER_SECOND <= u64::MAX * NANOS_PER_SECOND) by (nonlinear_arith)
                requires
                    seconds <= u64::MAX,
            ;
            let at: i128 = seconds as i128 * NANOS_PER_SECOND as i128;
            if at <= now_nanos {
                0
            } else if now_nanos <= at - longest {
                RETRY_AFTER_MAX * NANOS_PER_SECOND
            } else {
                (at - now_nanos) as u64
            }
        },
    }
}

/// How long to wait before a retry, in nanoseconds, by the `Retry-After` headers of the
/// response and the nanoseconds since the start of 1970.
pub fn retry_delay(values: &Vec<Option<String>>, retry_index: usize, now_nanos: i128) -> (res: u64)
    ensures
        res == asked_delay(header_views(values@), retry_index as nat, now_nanos as int),
{
    let delays: [u64; 3] = SAFE_RETRY_DELAYS;
    let fallback: u64 = if retry_index < 3 {
        delays[retry_index] * NANOS_PER_SECOND
    } else {
        RETRY_AFTER_MAX * NANOS_PER_SECOND
    };
    if values.len() != 1 {
        return fallback;
    }
    assert(header_views(values@)[0] == optional_text(values@[0]));
    let text: &str = match &values[0] {
        Some(text) => text.as_str().trim(),
        None => {
            return fallback;
        },
    };
    if only_digits(text) {
        return match parse_digits(text) {
            None => fallback,
            Some(seconds) => if seconds < RETRY_AFTER_MAX {
                seconds * NANOS_PER_SECOND
            } else {
                RETRY_AFTER_MAX * NANOS_PER_SECOND
            },
        };
    }
    wait_until_date(parse_date(text), now_nanos, fallback)
}

/// No wait before a retry is longer than the longest.
pub proof fn waits_are_capped(values: Seq<Option<Seq<char>>>, retry_index: nat, now_nanos: int)
    ensures
        asked_delay(values, retry_index, now_nanos) <= longest_delay(),
{
    assert(SAFE_RETRY_DELAYS[0] == 1 && SAFE_RETRY_DELAYS[1] == 2 && SAFE_RETRY_DELAYS[2] == 4);
}

/// What came of one attempt to send a request.
pub enum AttemptResult {
    Succeeded,
    /// A status that is no success, with the `Retry-After` headers of the response and
    /// the time at which it came, in nanoseconds since the start of 1970.
    Status { code: u16, retry_after: Vec<Option<String>>, now_nanos: i128 },
    /// No response; `connect` tells that no connection was made.
    Transport { connect: bool, timeout: bool },
}

/// What is to be done after an attempt.
#[derive(Debug)]
pub enum AttemptAction {
    UseResponse,
    /// Wait this many nanoseconds and send the request again.
    RetryAfter(u64),
    Fail(ClientCallError),
}

/// The content of an [`AttemptAction`].
pub enum AttemptView {
    UseResponse,
    RetryAfter(nat),
    Fail(CallErrorView),
}

impl View for AttemptAction {
    type V = AttemptView;

    open spec fn view(&self) -> AttemptView {
        match self {
            AttemptAction::UseResponse => AttemptView::UseResponse,
            AttemptAction::RetryAfter(nanos) => AttemptView::RetryAfter(*nanos as nat),
            AttemptAction::Fail(error) => AttemptView::Fail(error@),
        }
    }
}

/// What is to be done when an attempt has come to this, after as many retries.
pub open spec fn attempt_action(operation: Operation, retries: nat, result: AttemptResult) -> AttemptView {
    match result {
        AttemptResult::Succeeded => AttemptView::UseResponse,
        AttemptResult::Status { code, retry_after, now_nanos } => if retries < 3
            && is_retried_status(operation, code) {
            AttemptView::RetryAfter(
                asked_delay(header_views(retry_after@), retries, now_nanos as int),
            )
        } else {
            AttemptView::Fail(
                CallErrorView::Failure(
                    FailureView {
                        kind: ToolFailureKind::UpstreamStatus,
                        message: "the external service rejected the request"@,
                        ambiguous: false,
                        caused: false,
                    },
                ),
            )
        },
        AttemptResult::Transport { connect, timeout } => if connect && retries < 3 {
            AttemptView::RetryAfter(fallback_delay(retries))
        } else {
            AttemptView::Fail(
                CallErrorView::Failure(
                    FailureView {
                        kind: if timeout {
                            ToolFailureKind::Timeout
                        } else {
                            ToolFailureKind::UpstreamTransport
                        },
                        message: "the external service request failed"@,
                        ambiguous: !connect,
                        caused: true,
                    },
                ),
            )
        },
    }
}

/// Decides whether a request is sent again.
#[derive(Debug)]
pub struct RetryController {
    operation: Operation,
    retries: usize,
}

impl RetryController {
    /// What the request is for.
    pub closed spec fn purpose(self) -> Operation {
        self.operation
    }

    /// How often the request has been sent again.
    pub closed spec fn count(self) -> nat {
        self.retries as nat
    }

    pub fn new(operation: Operation) -> (res: Self)
        ensures
            res.purpose() == operation,
            res.count() == 0,
    {
        Self { operation, retries: 0 }
    }

    /// Decides what is to be done after an attempt.
    pub fn decide(&mut self, result: AttemptResult) -> (res: AttemptAction)
        ensures
            res@ == attempt_action(old(self).purpose(), old(self).count(), result),
            final(self).purpose() == old(self).purpose(),
            final(self).count() == (if res@ is RetryAfter {
                old(self).count() + 1
            } else {
                old(self).count()
            }),
    {
        match result {
            AttemptResult::Succeeded => AttemptAction::UseResponse,
            AttemptResult::Status { code, retry_after, now_nanos } => {
                if self.retries < 3 && self.operation.can_retry_status(code) {
                    let nanos: u64 = retry_delay(&retry_after, self.retries, now_nanos);
                    self.retries += 1;
                    return AttemptAction::RetryAfter(nanos);
                }
                AttemptAction::Fail(
                    ClientCallError::Failure(
                        ToolFailure::new(
                            ToolFailureKind::UpstreamStatus,
                            "the external service rejected the request",
                            false,
                        ),
                    ),
                )
            },
            AttemptResult::Transport { connect, timeout } => {
                if connect && self.retries < 3 {
                    let delays: [u64; 3] = SAFE_RETRY_DELAYS;
                    let nanos: u64 = delays[self.retries] * NANOS_PER_SECOND;
                    self.retries += 1;
                    return AttemptAction::RetryAfter(nanos);
                }
                let kind: ToolFailureKind = if timeout {
                    ToolFailureKind::Timeout
                } else {
                    ToolFailureKind::UpstreamTransport
                };
                AttemptAction::Fail(
                    ClientCallError::Failure(
                        ToolFailure::with_cause(
                            kind,
                            "the external service request failed",
                            !connect,
                            (),
                        ),
                    ),
                )
            },
        }
    }
}

/// A request is sent again at most three times.
pub proof fn retries_are_bounded(operation: Operation, retries: nat, result: AttemptResult)
    ensures
        attempt_action(operation, retries, result) is RetryAfter ==> retries < 3,
{
}

/// A request that may have reached the service is not sent again: not after a failure on
/// an open connection, and a message not after a failure of a gateway.
pub proof fn uncertain_requests_are_not_repeated(operation: Operation, retries: nat, result: AttemptResult)
    requires
        (result matches AttemptResult::Transport { connect, timeout: _ } && !connect) || (result
            matches AttemptResult::Status { code, retry_after: _, now_nanos: _ } && operation
            == Operation::Message && code != STATUS_LOCKED && code != STATUS_TOO_MANY_REQUESTS),
    ensures
        attempt_action(operation, retries, result) is Fail,
{
}

/// A failure is reported as of open outcome exactly when a connection was made and no
/// response came.
pub proof fn only_lost_responses_are_ambiguous(operation: Operation, retries: nat, result: AttemptResult)
    ensures
        attempt_action(operation, retries, result) matches AttemptView::Fail(
            CallErrorView::Failure(failure),
        ) ==> failure.ambiguous == (result matches AttemptResult::Transport { connect, timeout: _ }
            && !connect),
{
}

/// What interrupts an operation.
#[derive(Clone, Copy, Debug, PartialEq, Eq, Structural)]
pub enum Interruption {
    Cancelled,
    DeadlinePassed,
}

/// Where an operation is interrupted.
#[derive(Clone, Copy, Debug, PartialEq, Eq, Structural)]
pub enum OperationPhase {
    InProgress,
    WaitingToRetry,
}

/// The error that an interruption ends an operation with.
pub open spec fn interruption_breach(interruption: Interruption, phase: OperationPhase) -> CallErrorView {
    match interruption {
        Interruption::Cancelled => CallErrorView::Cancelled,
        Interruption::DeadlinePassed => CallErrorView::Failure(
            FailureView {
                kind: ToolFailureKind::Timeout,
                message: if phase == OperationPhase::InProgress {
                    "the external operation exceeded its deadline"@
                } else {
                    "the external operation exceeded its deadline while waiting to retry"@
                },
                ambiguous: phase == OperationPhase::InProgress,
                caused: false,
            },
        ),
    }
}

/// Ends an operation that is interrupted.
pub fn interruption_error(interruption: Interruption, phase: OperationPhase) -> (res: ClientCallError)
    ensures
        res@ == interruption_breach(interruption, phase),
{
    match interruption {
        Interruption::Cancelled => ClientCallError::Cancelled,
        Interruption::DeadlinePassed => {
            let failure: ToolFailure = if phase == OperationPhase::InProgress {
                ToolFailure::new(
                    ToolFailureKind::Timeout,
                    "the external operation exceeded its deadline",
                    true,
                )
            } else {
                ToolFailure::new(
                    ToolFailureKind::Timeout,
                    "the external operation exceeded its deadline while waiting to retry",
                    false,
                )
            };
            ClientCallError::Failure(failure)
        },
    }
}

/// Gathers the body of a response within a limit.
#[derive(Debug)]
pub struct BodyReader {
    body: Vec<u8>,
    limit: usize,
}

impl View for BodyReader {
    type V = Seq<u8>;

    closed spec fn view(&self) -> Seq<u8> {
        self.body@
    }
}

impl BodyReader {
    /// How many bytes the body may have.
    pub closed spec fn bound(self) -> nat {
        self.limit as nat
    }

    pub fn new(limit: usize) -> (res: Self)
        ensures
            res@ == Seq::<u8>::empty(),
            res.bound() == limit,
    {
        Self { body: Vec::new(), limit }
    }

    /// Adds a chunk, unless the body would grow over its limit.
    pub fn accept_chunk(&mut self, chunk: &[u8]) -> (res: Result<(), ClientCallError>)
        ensures
            final(self).bound() == old(self).bound(),
            match res {
                Ok(_) => old(self)@.len() + chunk@.len() <= old(self).bound() && final(self)@
                    == old(self)@ + chunk@,
                Err(error) => old(self)@.len() + chunk@.len() > old(self).bound() && final(self)@
                    == old(self)@ && error@ == CallErrorView::Failure(
                    limit_breach("the external response exceeds the size limit"@),
                ),
            },
    {
        let ghost before: Seq<u8> = self@;
        if self.body.len() > self.limit || chunk.len() > self.limit - self.body.len() {
            return Err(
                ClientCallError::Failure(
                    ToolFailure::new(
                        ToolFailureKind::LimitExceeded,
                        "the external response exceeds the size limit",
                        false,
                    ),
                ),
            );
        }
        self.body.extend_from_slice(chunk);
        assert(self@ =~= before + chunk@);
        Ok(())
    }

    /// The body that has been gathered.
    pub fn into_body(self) -> (res: Vec<u8>)
        ensures
            res@ == self@,
    {
        self.body
    }
}

/// Reports a body that could not be read to its end.
pub fn body_read_failure() -> (res: ClientCallError)
    ensures
        res@ == CallErrorView::Failure(
            FailureView {
                kind: ToolFailureKind::UpstreamTransport,
                message: "the external response could not be read"@,
                ambiguous: true,
                caused: true,
            },
        ),
{
    ClientCallError::Failure(
        ToolFailure::with_cause(
            ToolFailureKind::UpstreamTransport,
            "the external response could not be read",
            true,
            (),
        ),
    )
}

/// Counts the bytes of an error body that is read only to be dropped.
#[derive(Debug)]
pub struct ErrorBodyDrain {
    remaining: usize,
}

impl View for ErrorBodyDrain {
    type V = nat;

    closed spec fn view(&self) -> nat {
        self.remaining as nat
    }
}

impl ErrorBodyDrain {
    pub fn new() -> (res: Self)
        ensures
            res@ == ERROR_BODY_MAX_BYTES,
    {
        Self { remaining: ERROR_BODY_MAX_BYTES }
    }

    /// Drops a chunk; tells whether more may be read.
    pub fn accept_chunk(&mut self, length: usize) -> (res: bool)
        ensures
            res == (length < old(self)@),
            final(self)@ == (if length < old(self)@ {
                old(self)@ - length
            } else {
                old(self)@ as int
            }),
    {
        if length >= self.remaining {
            return false;
        }
        self.remaining -= length;
        true
    }
}

/// A text up to its first semicolon.
pub open spec fn before_semicolon(text: Seq<char>) -> Seq<char>
    decreases text.len(),
{
    if text.len() == 0 || text[0] == ';' {
        Seq::empty()
    } else {
        seq![text[0]] + before_semicolon(text.drop_first())
    }
}

/// An ASCII letter in lower case; any other character as it is.
pub open spec fn ascii_lower(c: char) -> char {
    if 'A' <= c <= 'Z' {
        (c as u32 + 32) as char
    } else {
        c
    }
}

/// The content type is that of an event stream, whatever its parameters.
pub open spec fn is_event_stream(content_type: Option<Seq<char>>) -> bool {
    content_type matches Some(text) && trimmed(before_semicolon(text)).map_values(
        |c: char| ascii_lower(c),
    ) == "text/event-stream"@
}

fn lower_ascii(c: char) -> (res: char)
    ensures
        res == ascii_lower(c),
{
    if 'A' <= c && c <= 'Z' {
        (c as u8 + 32) as char
    } else {
        c
    }
}

proof fn before_semicolon_is_prefix(text: Seq<char>, count: int)
    requires
        0 <= count <= text.len(),
        forall|i: int| 0 <= i < count ==> #[trigger] text[i] != ';',
        count < text.len() ==> text[count] == ';',
    ensures
        before_semicolon(text) == text.take(count),
    decreases text.len(),
{
    if count == 0 {
        assert(text.take(0) =~= Seq::empty());
    } else {
        assert(text[0] != ';');
        assert forall|i: int| 0 <= i < count - 1 implies #[trigger] text.drop_first()[i]
            != ';' by {
            assert(text[i + 1] != ';');
        }
        before_semicolon_is_prefix(text.drop_first(), count - 1);
        assert(seq![text[0]] + text.drop_first().take(count - 1) =~= text.take(count));
    }
}

/// The content type is that of an event stream, whatever its parameters.
pub fn has_event_stream_content_type(content_type: Option<&str>) -> (res: bool)
    ensures
        res == is_event_stream(
            match content_type {
                Some(text) => Some(text@),
                None => None,
            },
        ),
{
    let text: &str = match content_type {
        Some(text) => text,
        None => {
            return false;
        },
    };
    let chars: Vec<char> = char_vec(text);
    let mut end: usize = 0;
    while end < chars.len() && chars[end] != ';'
        invariant
            end <= chars@.len(),
            chars@ == text@,
            forall|i: int| 0 <= i < end ==> #[trigger] text@[i] != ';',
        decreases chars@.len() - end,
    {
        end += 1;
    }
    let essence: String = text_of(&chars, 0, end);
    proof {
        before_semicolon_is_prefix(text@, end as int);
        assert(essence@ =~= before_semicolon(text@));
    }
    let stripped: Vec<char> = char_vec(essence.as_str().trim());
    let mut lower: String = String::new();
    let mut i: usize = 0;
    while i < stripped.len()
        invariant
            i <= stripped@.len(),
            lower@ == stripped@.take(i as int).map_values(|c: char| ascii_lower(c)),
        decreases stripped@.len() - i,
    {
        lower.push(lower_ascii(stripped[i]));
        proof {
            let done = stripped@.take(i + 1);
            assert(done.map_values(|c: char| ascii_lower(c)) =~= stripped@.take(
                i as int,
            ).map_values(|c: char| ascii_lower(c)).push(ascii_lower(stripped@[i as int])));
        }
        i += 1;
    }
    assert(stripped@.take(stripped@.len() as int) =~= stripped@);
    same_text(lower.as_str(), "text/event-stream")
}

/// Accepts a response to a message only as an event stream.
pub fn check_message_response(content_type: Option<&str>) -> (res: Result<(), ClientCallError>)
    ensures
        ({
            let given = match content_type {
                Some(text) => Some(text@),
                None => None,
            };
            match res {
                Ok(_) => is_event_stream(given),
                Err(error) => !is_event_stream(given) && error@ == CallErrorView::Failure(
                    protocol_breach("the service returned a non-SSE response"@),
                ),
            }
        }),
{
    if !has_event_stream_content_type(content_type) {
        return Err(
            ClientCallError::Failure(
                ToolFailure::new(
                    ToolFailureKind::UpstreamProtocol,
                    "the service returned a non-SSE response",
                    false,
                ),
            ),
        );
    }
    Ok(())
}

/// The byte may stand in the value of a header.
pub open spec fn is_header_byte(byte: u8) -> bool {
    (byte >= 32 && byte != 127) || byte == TAB
}

/// The text may be the value of a header.
pub open spec fn is_header_value(text: Seq<char>) -> bool {
    let bytes = encode_utf8(text);
    forall|i: int| 0 <= i < bytes.len() ==> is_header_byte(#[trigger] bytes[i])
}

/// Calls `HeaderValue::from_str`, which accepts a text exactly when each of its bytes is
/// a tabulator, or at least 32 and not 127.
#[verifier::external_body]
fn header_value(text: &str) -> (res: bool)
    ensures
        res == is_header_value(text@),
{
    HeaderValue::from_str(text).is_ok()
}

/// Accepts a token that can be sent in a header.
pub fn check_authorization(token: &str) -> (res: Result<(), ToolFailure>)
    ensures
        match res {
            Ok(_) => is_header_value(token@),
            Err(failure) => !is_header_value(token@) && failure@ == (FailureView {
                kind: ToolFailureKind::InvalidArguments,
                message: "the configured token cannot be used as an HTTP authorization value"@,
                ambiguous: false,
                caused: true,
            }),
        },
{
    if !header_value(token) {
        return Err(
            ToolFailure::with_cause(
                ToolFailureKind::InvalidArguments,
                "the configured token cannot be used as an HTTP authorization value",
                false,
                (),
            ),
        );
    }
    Ok(())
}

/// The names and values of headers.
pub open spec fn header_pairs(headers: Seq<(&'static str, String)>) -> Seq<(Seq<char>, Seq<char>)> {
    headers.map_values(|header: (&'static str, String)| (header.0@, header.1@))
}

/// The headers of every request.
pub open spec fn headers_of(accept: Seq<char>, authorization: Seq<char>) -> Seq<
    (Seq<char>, Seq<char>),
> {
    seq![
        ("accept"@, accept),
        ("accept-charset"@, "utf-8"@),
        ("accept-encoding"@, "gzip, deflate, br"@),
        ("accept-language"@, ACCEPT_LANGUAGE_VALUE@),
        ("authorization"@, authorization),
        ("origin"@, "https://code.1c.ai"@),
        ("referer"@, "https://code.1c.ai/chat/"@),
        ("content-type"@, "application/json; charset=utf-8"@),
        ("session-id"@, ""@),
        ("user-agent"@, USER_AGENT_VALUE@),
    ]
}

/// The headers of a request that accepts this content type.
pub fn request_headers(accept: &'static str, authorization: &str) -> (res: Vec<
    (&'static str, String),
>)
    ensures
        header_pairs(res@) == headers_of(accept@, authorization@),
{
    let mut headers: Vec<(&'static str, String)> = Vec::new();
    headers.push(("accept", accept.to_owned()));
    headers.push(("accept-charset", "utf-8".to_owned()));
    headers.push(("accept-encoding", "gzip, deflate, br".to_owned()));
    headers.push(("accept-language", ACCEPT_LANGUAGE_VALUE.to_owned()));
    headers.push(("authorization", authorization.to_owned()));
    headers.push(("origin", "https://code.1c.ai".to_owned()));
    headers.push(("referer", "https://code.1c.ai/chat/".to_owned()));
    headers.push(("content-type", "application/json; charset=utf-8".to_owned()));
    headers.push(("session-id", "".to_owned()));
    headers.push(("user-agent", USER_AGENT_VALUE.to_owned()));
    assert(header_pairs(headers@) =~= headers_of(accept@, authorization@));
    headers
}

/// An address in its normal form, if it is one.
pub uninterp spec fn parsed_url(text: Seq<char>) -> Option<Seq<char>>;

/// Calls `Url::parse`, whose result depends on the text alone.
#[verifier::external_body]
fn parse_url(text: &str) -> (res: Option<String>)
    ensures
        match res {
            Some(url) => parsed_url(text@) == Some(url@),
            None => parsed_url(text@) is None,
        },
{
    Url::parse(text).ok().map(String::from)
}

/// The address that a path leads to from another address, if both are valid.
pub uninterp spec fn joined_url(base: Seq<char>, path: Seq<char>) -> Option<Seq<char>>;

/// Calls `Url::join`, whose result depends on the two texts alone.
#[verifier::external_body]
fn join_url(base: &str, path: &str) -> (res: Option<String>)
    ensures
        match res {
            Some(url) => joined_url(base@, path@) == Some(url@),
            None => joined_url(base@, path@) is None,
        },
{
    Url::parse(base).ok()?.join(path).ok().map(String::from)
}

/// How many characters an address, or a segment of its path, is made of at most. `Url`
/// counts the bytes of an address in 32 bits, and a character takes at most twelve in it.
pub const ADDRESS_MAX_CHARS: usize = 0x100_0000;

/// An address with its path replaced by these segments, if it can have a path.
pub uninterp spec fn url_with_path(base: Seq<char>, segments: Seq<Seq<char>>) -> Option<Seq<char>>;

/// Calls `Url::path_segments_mut` with `clear` and `extend`, whose result depends on the
/// address and the segments alone. It panics where the address grows over 32 bits, which
/// a few segments of this size stay far from.
#[verifier::external_body]
fn replace_path(base: &str, segments: &Vec<&str>) -> (res: Option<String>)
    requires
        base@.len() <= ADDRESS_MAX_CHARS,
        segments@.len() <= 8,
        forall|i: int| 0 <= i < segments@.len() ==> (#[trigger] segments@[i])@.len()
            <= ADDRESS_MAX_CHARS,
    ensures
        match res {
            Some(url) => url_with_path(base@, segment_views(segments@)) == Some(url@),
            None => url_with_path(base@, segment_views(segments@)) is None,
        },
{
    let mut url = Url::parse(base).ok()?;
    url.path_segments_mut().ok()?.clear().extend(segments);
    Some(String::from(url))
}

/// The characters of path segments.
pub open spec fn segment_views(segments: Seq<&str>) -> Seq<Seq<char>> {
    segments.map_values(|segment: &str| segment@)
}

/// The path of the messages of a conversation.
pub open spec fn message_path(conversation_id: Seq<char>) -> Seq<Seq<char>> {
    seq![
        "chat_api"@,
        "v1"@,
        "conversations"@,
        conversation_id,
        MESSAGE_PATH_SUFFIX@,
    ]
}

/// An internal failure.
pub open spec fn internal_breach(message: Seq<char>, caused: bool) -> FailureView {
    FailureView { kind: ToolFailureKind::Internal, message, ambiguous: false, caused }
}

/// Takes the address that was computed, or fails where there is none.
pub fn require_url(url: Option<String>, message: &'static str, caused: bool) -> (res: Result<
    String,
    ToolFailure,
>)
    ensures
        match res {
            Ok(text) => url matches Some(given) && text@ == given@,
            Err(failure) => url is None && failure@ == internal_breach(message@, caused),
        },
{
    match url {
        Some(url) => Ok(url),
        None => if caused {
            Err(ToolFailure::with_cause(ToolFailureKind::Internal, message, false, ()))
        } else {
            Err(ToolFailure::new(ToolFailureKind::Internal, message, false))
        },
    }
}

/// The address of the service in its normal form.
pub fn service_url(base: &str) -> (res: Result<String, ToolFailure>)
    ensures
        match res {
            Ok(url) => parsed_url(base@) == Some(url@),
            Err(failure) => parsed_url(base@) is None && failure@ == internal_breach(
                "the fixed service address is invalid"@,
                true,
            ),
        },
{
    require_url(parse_url(base), "the fixed service address is invalid", true)
}

/// The address at which conversations are made.
pub fn conversation_url(base: &str) -> (res: Result<String, ToolFailure>)
    ensures
        match res {
            Ok(url) => joined_url(base@, CREATE_CONVERSATION_PATH@) == Some(url@),
            Err(failure) => joined_url(base@, CREATE_CONVERSATION_PATH@) is None && failure@
                == internal_breach("the fixed service path is invalid"@, true),
        },
{
    require_url(
        join_url(base, CREATE_CONVERSATION_PATH),
        "the fixed service path is invalid",
        true,
    )
}

/// The address of the messages of a conversation.
pub fn message_url(base: &str, conversation_id: &str) -> (res: Result<String, ToolFailure>)
    requires
        base@.len() <= ADDRESS_MAX_CHARS,
        conversation_id@.len() <= ADDRESS_MAX_CHARS,
    ensures
        match res {
            Ok(url) => url_with_path(base@, message_path(conversation_id@)) == Some(url@),
            Err(failure) => url_with_path(base@, message_path(conversation_id@)) is None && failure@
                == internal_breach("the service address cannot contain path segments"@, false),
        },
{
    let mut segments: Vec<&str> = Vec::new();
    segments.push("chat_api");
    segments.push("v1");
    segments.push("conversations");
    segments.push(conversation_id);
    segments.push(MESSAGE_PATH_SUFFIX);
    proof {
        reveal_strlit("chat_api");
        reveal_strlit("v1");
        reveal_strlit("conversations");
        reveal_strlit("messages");
        assert(MESSAGE_PATH_SUFFIX@.len() == 8);
    }
    assert(segment_views(segments@) =~= message_path(conversation_id@));
    require_url(
        replace_path(base, &segments),
        "the service address cannot contain path segments",
        false,
    )
}

/// What is wrong with a serialized request, if anything.
pub open spec fn request_breach(body: Option<Seq<u8>>) -> Option<FailureView> {
    match body {
        None => Some(internal_breach("the external request could not be serialized"@, true)),
        Some(bytes) => if bytes.len() > UPSTREAM_REQUEST_MAX_BYTES {
            Some(limit_breach("the external request exceeds the size limit"@))
        } else {
            None
        },
    }
}

/// Accepts a serialized request within its limit; `None` is one that could not be
/// serialized.
pub fn bound_request(body: Option<Vec<u8>>) -> (res: Result<Vec<u8>, ClientCallError>)
    ensures
        ({
            let given = match body {
                Some(bytes) => Some(bytes@),
                None => None,
            };
            match res {
                Ok(bytes) => request_breach(given) is None && given == Some(bytes@),
                Err(error) => request_breach(given) matches Some(failure) && error@
                    == CallErrorView::Failure(failure),
            }
        }),
{
    match body {
        None => Err(
            ClientCallError::Failure(
                ToolFailure::with_cause(
                    ToolFailureKind::Internal,
                    "the external request could not be serialized",
                    false,
                    (),
                ),
            ),
        ),
        Some(bytes) => {
            if bytes.len() > UPSTREAM_REQUEST_MAX_BYTES {
                return Err(
                    ClientCallError::Failure(
                        ToolFailure::new(
                            ToolFailureKind::LimitExceeded,
                            "the external request exceeds the size limit",
                            false,
                        ),
                    ),
                );
            }
            Ok(bytes)
        },
    }
}

/// The result is the body of a request with these fields, or what is wrong with it.
pub open spec fn is_request_body(res: Result<Vec<u8>, ClientCallError>, fields: Fields) -> bool {
    let body = ordered_bytes(settled_fields(fields));
    match res {
        Ok(bytes) => request_breach(body) is None && body == Some(bytes@),
        Err(error) => request_breach(body) matches Some(failure) && error@
            == CallErrorView::Failure(failure),
    }
}

/// Serializes the fields of a request within its limit.
pub fn serialize_bounded(fields: &Vec<(String, Json)>) -> (res: Result<Vec<u8>, ClientCallError>)
    ensures
        is_request_body(res, pair_views(fields@)),
{
    bound_request(ordered_json_bytes(fields))
}

/// The body of the request for a conversation.
pub fn create_conversation_body(ui_language: &str, programming_language: &str) -> (res: Result<
    Vec<u8>,
    ClientCallError,
>)
    ensures
        is_request_body(res, create_conversation_fields(ui_language@, programming_language@)),
{
    serialize_bounded(&CreateConversationRequest::new(ui_language, programming_language).fields())
}

/// The body of a message of the user in a conversation.
pub fn user_message_body(conversation: &Conversation, instruction: &str, tools: &Vec<Json>) -> (res:
    Result<Vec<u8>, ClientCallError>)
    ensures
        is_request_body(
            res,
            user_message_fields(instruction@, array_view(tools@), conversation@.parent),
        ),
{
    serialize_bounded(
        &UserMessageRequest::new(instruction, tools, conversation.parent_uuid()).fields(),
    )
}

/// The body of a message with the results of tools in a conversation, which must have a
/// message that they answer.
pub fn tool_results_body(conversation: &Conversation, results: &Vec<Json>) -> (res: Result<
    Vec<u8>,
    ClientCallError,
>)
    ensures
        match conversation@.parent {
            Some(parent) => is_request_body(
                res,
                tool_message_fields(array_view(results@), parent),
            ),
            None => res matches Err(error) && error@ == CallErrorView::Failure(
                protocol_breach("tool results require an assistant message parent"@),
            ),
        },
{
    match conversation.parent_uuid() {
        Some(parent) => serialize_bounded(&ToolMessageRequest::new(results, parent).fields()),
        None => Err(
            ClientCallError::Failure(
                ToolFailure::new(
                    ToolFailureKind::UpstreamProtocol,
                    "tool results require an assistant message parent",
                    false,
                ),
            ),
        ),
    }
}

/// The conversation that the service has made, by the identifiers that were decoded from
/// its response.
pub fn open_conversation(decoded: Option<(String, Option<String>)>) -> (res: Result<
    Conversation,
    ClientCallError,
>)
    ensures
        match res {
            Ok(conversation) => decoded matches Some((uuid, root)) && is_usable(
                uuid@,
                optional_text(root),
            ) && conversation@ == (ConversationView { id: uuid@, parent: optional_text(root) }),
            Err(error) => !(decoded matches Some((uuid, root)) && is_usable(
                uuid@,
                optional_text(root),
            )) && error@ == CallErrorView::Failure(
                caused_protocol_breach("the conversation response is incompatible"@),
            ),
        },
{
    match CreateConversationResponse::parse(decoded) {
        Ok(response) => {
            let (id, parent) = response.into_parts();
            Ok(Conversation::new(id, parent))
        },
        Err(error) => Err(
            ClientCallError::Failure(
                ToolFailure::with_cause(
                    ToolFailureKind::UpstreamProtocol,
                    "the conversation response is incompatible",
                    false,
                    error,
                ),
            ),
        ),
    }
}

/// Where the service asks for a number of seconds, it is given that many, up to thirty.
pub proof fn asked_seconds_are_waited(text: Seq<char>, seconds: nat, retry_index: nat, now_nanos: int)
    requires
        trimmed(text) == decimal(seconds),
        seconds <= u64::MAX,
    ensures
        asked_delay(seq![Some(text)], retry_index, now_nanos) == (if seconds < 30 {
            seconds
        } else {
            30
        }) * 1_000_000_000,
{
    written_numbers_are_read_back(seconds);
    let asked = seq![Some(text)];
    assert(asked[0] == Some(text));
}

/// Where the service names a date, the wait lasts until then: not at all if it is past, and
/// thirty seconds at most.
pub proof fn asked_dates_are_waited_for(text: Seq<char>, date: u64, retry_index: nat, now_nanos: int)
    requires
        http_date(trimmed(text)) == Some(date),
        !is_digits(trimmed(text)),
    ensures
        ({
            let left = date * 1_000_000_000 - now_nanos;
            asked_delay(seq![Some(text)], retry_index, now_nanos) == (if left <= 0 {
                0
            } else if left <= 30_000_000_000 {
                left
            } else {
                30_000_000_000
            })
        }),
{
    let asked = seq![Some(text)];
    assert(asked[0] == Some(text));
}

/// Where the service asks for nothing that can be understood, or for several things, the
/// waits are one, two and four seconds.
pub proof fn unasked_waits_double(values: Seq<Option<Seq<char>>>, retry_index: nat, now_nanos: int)
    requires
        retry_index < 3,
        values.len() != 1 || values[0] is None || (!is_digits(trimmed(values[0]->0)) && http_date(
            trimmed(values[0]->0),
        ) is None),
    ensures
        asked_delay(values, retry_index, now_nanos) == (if retry_index == 0 {
            1
        } else if retry_index == 1 {
            2
        } else {
            4nat
        }) * 1_000_000_000,
{
    assert(SAFE_RETRY_DELAYS[0] == 1 && SAFE_RETRY_DELAYS[1] == 2 && SAFE_RETRY_DELAYS[2] == 4);
}

/// A response is used. A request that surely had no effect is sent again, up to three
/// times: after a resource was locked, after too many requests, where no connection was
/// made, and for a new conversation after a failure of a gateway. Any other status fails.
pub proof fn harmless_requests_are_repeated(operation: Operation, retries: nat, result: AttemptResult)
    ensures
        ({
            let action = attempt_action(operation, retries, result);
            &&& result is Succeeded <==> action is UseResponse
            &&& result matches AttemptResult::Status { code, retry_after, now_nanos } ==> {
                let harmless = code == 423 || code == 429 || (operation
                    == Operation::CreateConversation && (code == 502 || code == 503 || code == 504));
                &&& harmless && retries < 3 ==> action == AttemptView::RetryAfter(
                    asked_delay(header_views(retry_after@), retries, now_nanos as int),
                )
                &&& !(harmless && retries < 3) ==> (action matches AttemptView::Fail(
                    CallErrorView::Failure(failure),
                ) && failure.kind == ToolFailureKind::UpstreamStatus)
            }
            &&& result matches AttemptResult::Transport { connect, timeout } ==> {
                &&& connect && retries < 3 ==> action == AttemptView::RetryAfter(
                    asked_delay(Seq::empty(), retries, 0),
                )
                &&& !(connect && retries < 3) ==> (action matches AttemptView::Fail(
                    CallErrorView::Failure(failure),
                ) && failure.kind == (if timeout {
                    ToolFailureKind::Timeout
                } else {
                    ToolFailureKind::UpstreamTransport
                }))
            }
        }),
{
}

/// A cancelled operation ends as cancelled. One whose time is over ends as timed out, and
/// of open outcome exactly while it was under way.
pub proof fn interruptions_end_operations(phase: OperationPhase)
    ensures
        interruption_breach(Interruption::Cancelled, phase) == CallErrorView::Cancelled,
        interruption_breach(Interruption::DeadlinePassed, phase) matches CallErrorView::Failure(
            failure,
        ) && failure.kind == ToolFailureKind::Timeout && (failure.ambiguous <==> phase
            == OperationPhase::InProgress),
{
}

proof fn semicolons_end(text: Seq<char>, rest: Seq<char>)
    requires
        forall|i: int| 0 <= i < text.len() ==> #[trigger] text[i] != ';',
    ensures
        before_semicolon(text) == text,
        before_semicolon(text.push(';') + rest) == text,
{
    let whole = text.push(';') + rest;
    before_semicolon_is_prefix(text, text.len() as int);
    assert(text.take(text.len() as int) =~= text);
    assert forall|i: int| 0 <= i < text.len() implies #[trigger] whole[i] != ';' by {
        assert(text[i] != ';');
    }
    assert(whole[text.len() as int] == ';');
    before_semicolon_is_prefix(whole, text.len() as int);
    assert(whole.take(text.len() as int) =~= text);
}

/// The parameters of a content type do not matter, nor the white space around it, nor the
/// case of its letters.
pub proof fn only_the_type_of_content_matters(
    text: Seq<char>,
    parameters: Seq<char>,
    other: Seq<char>,
)
    requires
        forall|i: int| 0 <= i < text.len() ==> #[trigger] text[i] != ';',
        forall|i: int| 0 <= i < other.len() ==> #[trigger] other[i] != ';',
    ensures
        is_event_stream(Some(text.push(';') + parameters)) == is_event_stream(Some(text)),
        trimmed(text) == trimmed(other) ==> is_event_stream(Some(text)) == is_event_stream(
            Some(other),
        ),
        trimmed(text).map_values(|c: char| ascii_lower(c)) == trimmed(other).map_values(
            |c: char| ascii_lower(c),
        ) ==> is_event_stream(Some(text)) == is_event_stream(Some(other)),
        !is_event_stream(None),
{
    semicolons_end(text, parameters);
    semicolons_end(other, parameters);
}

/// An event stream is named `text/event-stream`, and nothing else is one.
pub proof fn event_streams_have_one_name(text: Seq<char>)
    requires
        forall|i: int| 0 <= i < text.len() ==> #[trigger] text[i] != ';',
    ensures
        trimmed(text) == "text/event-stream"@ ==> is_event_stream(Some(text)),
        is_event_stream(Some(text)) ==> trimmed(text).len() == "text/event-stream"@.len() && (forall|
            i: int,
        |
            0 <= i < trimmed(text).len() ==> (#[trigger] trimmed(text)[i] == "text/event-stream"@[i]
                || (trimmed(text)[i] as u32) + 32 == "text/event-stream"@[i] as u32)),
{
    semicolons_end(text, Seq::empty());
    let essence = trimmed(text);
    let lower = essence.map_values(|c: char| ascii_lower(c));
    reveal_strlit("text/event-stream");
    let name = "text/event-stream"@;
    assert forall|i: int| 0 <= i < name.len() implies !('A' <= #[trigger] name[i] <= 'Z') by {
    }
    if essence == name {
        assert(lower =~= name);
    }
    if lower == name {
        assert forall|i: int| 0 <= i < essence.len() implies (#[trigger] essence[i] == name[i] || (
        essence[i] as u32) + 32 == name[i] as u32) by {
            assert(lower[i] == ascii_lower(essence[i]));
        }
    }
}

/// Every request carries the token as it is, says what it accepts, and sends JSON; no
/// header occurs twice.
pub proof fn requests_carry_the_token(accept: Seq<char>, authorization: Seq<char>)
    ensures
        ({
            let headers = headers_of(accept, authorization);
            &&& headers.contains(("authorization"@, authorization))
            &&& headers.contains(("accept"@, accept))
            &&& headers.contains(("content-type"@, "application/json; charset=utf-8"@))
            &&& forall|i: int, j: int|
                0 <= i < j < headers.len() ==> (#[trigger] headers[i]).0 != (
                #[trigger] headers[j]).0
        }),
{
    let headers = headers_of(accept, authorization);
    assert(headers[4] == ("authorization"@, authorization));
    assert(headers[0] == ("accept"@, accept));
    assert(headers[7] == ("content-type"@, "application/json; charset=utf-8"@));
    reveal_strlit("accept");
    reveal_strlit("accept-charset");
    reveal_strlit("accept-encoding");
    reveal_strlit("accept-language");
    reveal_strlit("authorization");
    reveal_strlit("origin");
    reveal_strlit("referer");
    reveal_strlit("content-type");
    reveal_strlit("session-id");
    reveal_strlit("user-agent");
    assert("accept"@.len() == 6 && "accept"@[0] == 'a');
    assert("origin"@.len() == 6 && "origin"@[0] == 'o');
    assert("accept-charset"@.len() == 14);
    assert("accept-encoding"@.len() == 15 && "accept-encoding"@[7] == 'e');
    assert("accept-language"@.len() == 15 && "accept-language"@[7] == 'l');
    assert("authorization"@.len() == 13);
    assert("referer"@.len() == 7);
    assert("content-type"@.len() == 12);
    assert("session-id"@.len() == 10 && "session-id"@[0] == 's');
    assert("user-agent"@.len() == 10 && "user-agent"@[0] == 'u');
}

/// The messages of a conversation stand under its identifier, so that two conversations
/// have different paths.
pub proof fn conversations_have_their_own_paths(a: Seq<char>, b: Seq<char>)
    ensures
        message_path(a) == seq!["chat_api"@, "v1"@, "conversations"@, a, "messages"@],
        message_path(a) == message_path(b) ==> a == b,
{
    assert(message_path(a)[3] == a);
    assert(message_path(b)[3] == b);
}

/// A request is sent exactly where it could be written and is within one megabyte.
pub proof fn requests_are_bounded(body: Seq<u8>)
    ensures
        request_breach(Some(body)) is None <==> body.len() <= 1024 * 1024,
        request_breach(Some(body)) matches Some(failure) ==> failure.kind
            == ToolFailureKind::LimitExceeded,
        request_breach(None) is Some,
{
}

/// A request comes from the pages of the service, takes the content that it asks for in
/// UTF-8 and sends JSON in it; every header is there once.
pub proof fn requests_come_from_the_pages_of_the_service(accept: Seq<char>, authorization: Seq<char>)
    ensures
        ({
            let headers = headers_of(accept, authorization);
            let origin = "https://code.1c.ai"@;
            &&& headers.len() == 10
            &&& headers.contains(("accept"@, accept))
            &&& headers.contains(("authorization"@, authorization))
            &&& headers.contains(("origin"@, origin))
            &&& headers.contains(("referer"@, origin + "/chat/"@))
            &&& headers.contains(("accept-charset"@, "utf-8"@))
            &&& headers.contains(("content-type"@, "application/json"@ + "; charset="@ + "utf-8"@))
            &&& headers.contains(("session-id"@, Seq::<char>::empty()))
        }),
{
    let headers = headers_of(accept, authorization);
    reveal_strlit("https://code.1c.ai");
    reveal_strlit("/chat/");
    reveal_strlit("https://code.1c.ai/chat/");
    reveal_strlit("application/json; charset=utf-8");
    reveal_strlit("application/json");
    reveal_strlit("; charset=");
    reveal_strlit("utf-8");
    reveal_strlit("");
    assert("https://code.1c.ai/chat/"@ =~= "https://code.1c.ai"@ + "/chat/"@);
    assert("application/json; charset=utf-8"@ =~= "application/json"@ + "; charset="@ + "utf-8"@);
    assert(""@ =~= Seq::<char>::empty());
    assert(headers[0] == ("accept"@, accept));
    assert(headers[1] == ("accept-charset"@, "utf-8"@));
    assert(headers[4] == ("authorization"@, authorization));
    assert(headers[5] == ("origin"@, "https://code.1c.ai"@));
    assert(headers[6] == ("referer"@, "https://code.1c.ai"@ + "/chat/"@));
    assert(headers[7] == ("content-type"@, "application/json"@ + "; charset="@ + "utf-8"@));
    assert(headers[8] == ("session-id"@, Seq::<char>::empty()));
}

} // verus!
