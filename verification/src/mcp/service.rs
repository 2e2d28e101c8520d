//! Admission, outcomes and replies of tool calls.

use rmcp::model::{CallToolResult, ContentBlock};
use vstd::prelude::*;
use vstd::utf8::encode_utf8;

use crate::error::{
    protocol_breach,
    protocol_code,
    CallErrorView,
    FailureView,
    INTERNAL_ERROR,
};
use crate::error::{
    ClientCallError,
    McpError,
    ProtocolFailure,
    ProtocolFailureKind,
    ToolFailure,
    ToolFailureKind,
};
use crate::json::JsonView;
use crate::json::{Json, JsonNumber};
use crate::json_text::json_bytes;
use crate::json_text::{settled, tree_bytes};
use crate::limits::{MCP_FRAME_MAX_BYTES, WAITING_CALLS_MAX};
use crate::mcp::arguments::CatalogErrorView;
use crate::mcp::arguments::{CatalogError, CatalogErrorKind};
use crate::mcp::instruction::ExecutionRoute;
use crate::mcp::instruction::RouteView;
use crate::mcp::request_id::RequestId;
use crate::mcp::request_id::RequestIdView;
use crate::mcp::text::{direct_text, sanitized, standard_text};
use crate::mcp::text::{
    extract_standard_text,
    extract_tool_text,
    sanitize_text,
    DirectToolText,
};
use crate::naparnik::response::AssistantResponse;
use crate::naparnik::response::ResponseView;

verus! {

pub const RESPONSE_TOO_LARGE_MESSAGE: &'static str =
    "the tool response exceeds the MCP frame limit";

/// How many calls are admitted, and how many of them are carried out at a time.
#[derive(Clone, Copy, Debug, PartialEq, Eq)]
pub struct AdmissionLimits {
    pub admitted: usize,
    pub executing: usize,
}

/// The limits for this many concurrent calls: a few more may wait.
pub fn admission_limits(max_concurrent_calls: usize) -> (res: AdmissionLimits)
    requires
        max_concurrent_calls + WAITING_CALLS_MAX <= usize::MAX,
    ensures
        res.admitted == max_concurrent_calls + WAITING_CALLS_MAX,
        res.executing == max_concurrent_calls,
{
    AdmissionLimits {
        admitted: max_concurrent_calls + WAITING_CALLS_MAX,
        executing: max_concurrent_calls,
    }
}

/// What ended the wait for an execution slot.
#[derive(Clone, Copy, Debug, PartialEq, Eq, Structural)]
pub enum QueueEvent {
    Acquired,
    Cancelled,
    Closed,
    TimedOut,
}

/// How a tool call ended.
#[derive(Debug)]
pub enum ExecutionOutcome {
    Success(String),
    Failure(ToolFailure),
    Cancelled,
}

/// The content of an [`ExecutionOutcome`].
pub enum OutcomeView {
    Success(Seq<char>),
    Failure(FailureView),
    Cancelled,
}

impl View for ExecutionOutcome {
    type V = OutcomeView;

    open spec fn view(&self) -> OutcomeView {
        match self {
            ExecutionOutcome::Success(text) => OutcomeView::Success(text@),
            ExecutionOutcome::Failure(failure) => OutcomeView::Failure(failure@),
            ExecutionOutcome::Cancelled => OutcomeView::Cancelled,
        }
    }
}

/// How a call ends in the queue, unless it gets a slot.
pub open spec fn queue_outcome(event: QueueEvent) -> Option<OutcomeView> {
    match event {
        QueueEvent::Acquired => None,
        QueueEvent::Cancelled => Some(OutcomeView::Cancelled),
        QueueEvent::Closed => Some(
            OutcomeView::Failure(
                FailureView {
                    kind: ToolFailureKind::Internal,
                    message: "the execution queue is unavailable"@,
                    ambiguous: false,
                    caused: false,
                },
            ),
        ),
        QueueEvent::TimedOut => Some(
            OutcomeView::Failure(
                FailureView {
                    kind: ToolFailureKind::Timeout,
                    message: "the execution queue wait timed out"@,
                    ambiguous: false,
                    caused: false,
                },
            ),
        ),
    }
}

/// Ends a call in the queue, unless it has got a slot.
pub fn leave_queue(event: QueueEvent) -> (res: Option<ExecutionOutcome>)
    ensures
        match res {
            Some(outcome) => queue_outcome(event) == Some(outcome@),
            None => queue_outcome(event) is None,
        },
{
    match event {
        QueueEvent::Acquired => None,
        QueueEvent::Cancelled => Some(ExecutionOutcome::Cancelled),
        QueueEvent::Closed => Some(
            ExecutionOutcome::Failure(
                ToolFailure::new(
                    ToolFailureKind::Internal,
                    "the execution queue is unavailable",
                    false,
                ),
            ),
        ),
        QueueEvent::TimedOut => Some(
            ExecutionOutcome::Failure(
                ToolFailure::new(
                    ToolFailureKind::Timeout,
                    "the execution queue wait timed out",
                    false,
                ),
            ),
        ),
    }
}

/// How a call ended, by what carrying it out came to.
pub fn execution_outcome(result: Result<String, ClientCallError>) -> (res: ExecutionOutcome)
    ensures
        res@ == (match result {
            Ok(text) => OutcomeView::Success(text@),
            Err(error) => match error@ {
                CallErrorView::Cancelled => OutcomeView::Cancelled,
                CallErrorView::Failure(failure) => OutcomeView::Failure(failure),
            },
        }),
{
    match result {
        Ok(text) => ExecutionOutcome::Success(text),
        Err(ClientCallError::Cancelled) => ExecutionOutcome::Cancelled,
        Err(ClientCallError::Failure(failure)) => ExecutionOutcome::Failure(failure),
    }
}

/// The text that a call answers with.
pub open spec fn response_text(route: RouteView, response: ResponseView) -> Seq<char> {
    match route {
        RouteView::Message => standard_text(
            response.text,
            response.final_text,
            response.followups,
        ),
        RouteView::Exact { name, arguments } => direct_text(
            response.results,
            response.text,
            response.followups,
            response.final_text,
        ),
    }
}

/// Takes the text of the answer; an answer without text is a failure.
pub fn answer_text(route: &ExecutionRoute, response: &AssistantResponse) -> (res: Result<
    String,
    ClientCallError,
>)
    ensures
        match res {
            Ok(text) => text@ == response_text(route@, response@) && text@.len() > 0,
            Err(error) => response_text(route@, response@).len() == 0 && error@
                == CallErrorView::Failure(
                protocol_breach("the assistant response did not contain text"@),
            ),
        },
{
    let text: String = match route {
        ExecutionRoute::Exact { .. } => extract_tool_text(
            &DirectToolText {
                tool_results: response.tool_results(),
                full_text: response.text(),
                tool_followups: response.tool_followups(),
                final_text: response.final_text(),
            },
        ),
        ExecutionRoute::Message => extract_standard_text(
            response.text(),
            response.final_text(),
            response.tool_followups(),
        ),
    };
    if text.as_str().is_empty() {
        return Err(
            ClientCallError::Failure(
                ToolFailure::new(
                    ToolFailureKind::UpstreamProtocol,
                    "the assistant response did not contain text",
                    false,
                ),
            ),
        );
    }
    Ok(text)
}

/// The result of a tool: one text, which may be that of an error.
#[derive(Debug, PartialEq, Eq)]
pub struct ToolAnswer {
    pub text: String,
    pub is_error: bool,
}

/// The content of a [`ToolAnswer`].
pub struct AnswerView {
    pub text: Seq<char>,
    pub is_error: bool,
}

impl View for ToolAnswer {
    type V = AnswerView;

    open spec fn view(&self) -> AnswerView {
        AnswerView { text: self.text@, is_error: self.is_error }
    }
}

/// The serialized result of a tool that has succeeded with a text.
pub uninterp spec fn success_bytes(text: Seq<char>) -> Option<Seq<u8>>;

/// Calls `serde_json::to_vec` on what `CallToolResult::success` makes of one text block;
/// the bytes depend on the text alone.
#[verifier::external_body]
fn serialize_success(text: &str) -> (res: Option<Vec<u8>>)
    ensures
        match res {
            Some(bytes) => success_bytes(text@) == Some(bytes@),
            None => success_bytes(text@) is None,
        },
{
    serde_json::to_vec(&CallToolResult::success(vec![ContentBlock::text(text)])).ok()
}

/// The serialized result of a tool that has failed with a text.
pub uninterp spec fn error_bytes(text: Seq<char>) -> Option<Seq<u8>>;

/// Calls `serde_json::to_vec` on what `CallToolResult::error` makes of one text block;
/// the bytes depend on the text alone.
#[verifier::external_body]
fn serialize_error(text: &str) -> (res: Option<Vec<u8>>)
    ensures
        match res {
            Some(bytes) => error_bytes(text@) == Some(bytes@),
            None => error_bytes(text@) is None,
        },
{
    serde_json::to_vec(&CallToolResult::error(vec![ContentBlock::text(text)])).ok()
}

/// The serialized result of a tool.
pub open spec fn answer_bytes(answer: AnswerView) -> Option<Seq<u8>> {
    if answer.is_error {
        error_bytes(answer.text)
    } else {
        success_bytes(answer.text)
    }
}

/// An identifier as a JSON value.
pub open spec fn id_tree(id: RequestIdView) -> JsonView {
    match id {
        RequestIdView::Number(n) => JsonView::Number(JsonNumber::Negative(n)),
        RequestIdView::Text(text) => JsonView::Text(text),
    }
}

fn id_json(id: &RequestId) -> (res: Json)
    ensures
        res@ == id_tree(id@),
{
    match id {
        RequestId::Number(n) => Json::Number(JsonNumber::Negative(*n)),
        RequestId::Text(text) => Json::Text(text.clone()),
    }
}

/// How many bytes a response takes around its identifier and its result.
pub open spec fn frame_size(id: nat, result: nat) -> nat {
    encode_utf8("{\"jsonrpc\":\"2.0\",\"id\":"@).len() + id + encode_utf8(",\"result\":"@).len()
        + result + encode_utf8("}"@).len()
}

/// How many bytes the response with an answer takes, if it can be written.
pub open spec fn answer_frame_size(answer: AnswerView, id: RequestIdView) -> Option<nat> {
    match (tree_bytes(settled(id_tree(id))), answer_bytes(answer)) {
        (Some(id), Some(result)) => Some(frame_size(id.len(), result.len())),
        _ => None,
    }
}

/// An answer with the text of an error.
pub open spec fn error_answer(text: Seq<char>) -> AnswerView {
    AnswerView { text, is_error: true }
}

/// An answer, or an error in its place where its response does not fit a frame.
pub open spec fn fitted(answer: AnswerView, size: Option<nat>) -> AnswerView {
    if size is Some && size->0 <= MCP_FRAME_MAX_BYTES {
        answer
    } else {
        error_answer(RESPONSE_TOO_LARGE_MESSAGE@)
    }
}

/// An answer as it is sent under an identifier.
pub open spec fn bounded_answer(answer: AnswerView, id: RequestIdView) -> AnswerView {
    fitted(answer, answer_frame_size(answer, id))
}

fn tool_error(message: &str) -> (res: ToolAnswer)
    ensures
        res@ == error_answer(message@),
{
    ToolAnswer { text: message.to_owned(), is_error: true }
}

/// Keeps an answer if the serialized identifier and result fit a frame with it.
pub fn fit_answer(answer: ToolAnswer, id: Option<Vec<u8>>, result: Option<Vec<u8>>) -> (res:
    ToolAnswer)
    ensures
        res@ == fitted(
            answer@,
            match (id, result) {
                (Some(id), Some(result)) => Some(frame_size(id@.len(), result@.len())),
                _ => None,
            },
        ),
{
    match (id, result) {
        (Some(id), Some(result)) => {
            let size: usize = "{\"jsonrpc\":\"2.0\",\"id\":".as_bytes().len().saturating_add(
                id.len(),
            ).saturating_add(",\"result\":".as_bytes().len()).saturating_add(
                result.len(),
            ).saturating_add("}".as_bytes().len());
            if size <= MCP_FRAME_MAX_BYTES {
                answer
            } else {
                tool_error(RESPONSE_TOO_LARGE_MESSAGE)
            }
        },
        _ => tool_error(RESPONSE_TOO_LARGE_MESSAGE),
    }
}

/// Replaces an answer whose response does not fit a frame.
pub fn bounded_tool_result(answer: ToolAnswer, request_id: &RequestId) -> (res: ToolAnswer)
    ensures
        res@ == bounded_answer(answer@, request_id@),
{
    let id: Option<Vec<u8>> = json_bytes(&id_json(request_id));
    let result: Option<Vec<u8>> = if answer.is_error {
        serialize_error(answer.text.as_str())
    } else {
        serialize_success(answer.text.as_str())
    };
    fit_answer(answer, id, result)
}

/// What a client gets for a tool call.
#[derive(Debug)]
pub enum CallReply {
    Answer(ToolAnswer),
    Refuse(McpError),
    Silence,
}

/// The content of a [`CallReply`].
pub enum ReplyView {
    Answer(AnswerView),
    Refuse { code: i32, message: Seq<char> },
    Silence,
}

impl View for CallReply {
    type V = ReplyView;

    open spec fn view(&self) -> ReplyView {
        match self {
            CallReply::Answer(answer) => ReplyView::Answer(answer@),
            CallReply::Refuse(error) => ReplyView::Refuse {
                code: error.code,
                message: error.message@,
            },
            CallReply::Silence => ReplyView::Silence,
        }
    }
}

/// What a client gets for a request that the catalog refuses: an unknown tool is an
/// error of the protocol, invalid arguments are an error of the tool.
pub open spec fn catalog_reply(error: CatalogErrorView) -> ReplyView {
    match error.kind {
        CatalogErrorKind::UnknownTool => ReplyView::Refuse {
            code: protocol_code(ProtocolFailureKind::UnknownTool),
            message: "unknown tool"@,
        },
        _ => ReplyView::Answer(error_answer(error.message)),
    }
}

/// What a client gets for a call that ended so. A cancelled call gets no answer: none at
/// all while the server shuts down, else an error that the protocol layer drops.
pub open spec fn outcome_reply(outcome: OutcomeView, shutting_down: bool, id: RequestIdView) -> ReplyView {
    match outcome {
        OutcomeView::Success(text) => ReplyView::Answer(
            bounded_answer(AnswerView { text: sanitized(text), is_error: false }, id),
        ),
        OutcomeView::Failure(failure) => ReplyView::Answer(
            bounded_answer(error_answer(failure.message), id),
        ),
        OutcomeView::Cancelled => if shutting_down {
            ReplyView::Silence
        } else {
            ReplyView::Refuse { code: INTERNAL_ERROR, message: "request cancelled"@ }
        },
    }
}

/// Answers a request that the catalog refuses.
pub fn map_catalog_error(error: &CatalogError) -> (res: CallReply)
    ensures
        res@ == catalog_reply(error@),
{
    match error.kind() {
        CatalogErrorKind::UnknownTool => CallReply::Refuse(
            ProtocolFailure::new(
                ProtocolFailureKind::UnknownTool,
                "unknown tool",
            ).into_mcp_error(),
        ),
        CatalogErrorKind::InvalidArguments | CatalogErrorKind::LimitExceeded => CallReply::Answer(
            tool_error(error.message()),
        ),
    }
}

/// Answers a call that is not admitted.
pub fn busy_reply(request_id: &RequestId) -> (res: CallReply)
    ensures
        res@ == ReplyView::Answer(
            bounded_answer(error_answer("the server is busy; retry later"@), request_id@),
        ),
{
    CallReply::Answer(
        bounded_tool_result(tool_error("the server is busy; retry later"), request_id),
    )
}

/// Answers a call that has ended.
pub fn reply_to(outcome: ExecutionOutcome, shutting_down: bool, request_id: &RequestId) -> (res:
    CallReply)
    ensures
        res@ == outcome_reply(outcome@, shutting_down, request_id@),
{
    match outcome {
        ExecutionOutcome::Success(text) => CallReply::Answer(
            bounded_tool_result(
                ToolAnswer { text: sanitize_text(text.as_str()), is_error: false },
                request_id,
            ),
        ),
        ExecutionOutcome::Failure(failure) => CallReply::Answer(
            bounded_tool_result(tool_error(failure.message()), request_id),
        ),
        ExecutionOutcome::Cancelled => if shutting_down {
            CallReply::Silence
        } else {
            CallReply::Refuse(McpError { code: INTERNAL_ERROR, message: "request cancelled" })
        },
    }
}

/// A cancelled call is never answered with a result.
pub proof fn cancelled_calls_get_no_result(shutting_down: bool, id: RequestIdView)
    ensures
        !(outcome_reply(OutcomeView::Cancelled, shutting_down, id) is Answer),
{
}

/// A failed call is answered as an error, with a message that may be shown.
pub proof fn failures_are_answered_as_errors(failure: FailureView, shutting_down: bool, id: RequestIdView)
    ensures
        outcome_reply(OutcomeView::Failure(failure), shutting_down, id) matches ReplyView::Answer(
            answer,
        ) && answer.is_error && (answer.text == failure.message || answer.text
            == RESPONSE_TOO_LARGE_MESSAGE@),
{
}

/// An answer that is sent as it was given fits a frame, unless it is the error that
/// stands for answers that do not.
pub proof fn kept_answers_fit(answer: AnswerView, id: RequestIdView)
    ensures
        bounded_answer(answer, id) == answer ==> answer == error_answer(RESPONSE_TOO_LARGE_MESSAGE@)
            || (answer_frame_size(answer, id) matches Some(size) && size <= MCP_FRAME_MAX_BYTES),
{
}

/// What succeeds is answered with its text as it may be shown, and not as an error, where
/// the response fits a frame; where it does not, an error says so.
pub proof fn successes_are_answered_with_their_text(text: Seq<char>, shutting_down: bool, id: RequestIdView)
    ensures
        ({
            let given = AnswerView { text: sanitized(text), is_error: false };
            let fits = answer_frame_size(given, id) matches Some(size) && size <= 2 * 1024 * 1024;
            outcome_reply(OutcomeView::Success(text), shutting_down, id) matches ReplyView::Answer(
                answer,
            ) && answer.is_error == !fits && answer.text == (if fits {
                sanitized(text)
            } else {
                RESPONSE_TOO_LARGE_MESSAGE@
            })
        }),
{
}

/// A failure is answered with its message where that fits a frame.
pub proof fn failures_are_answered_with_their_message(
    failure: FailureView,
    shutting_down: bool,
    id: RequestIdView,
)
    requires
        answer_frame_size(AnswerView { text: failure.message, is_error: true }, id) matches Some(
            size,
        ) && size <= 2 * 1024 * 1024,
    ensures
        outcome_reply(OutcomeView::Failure(failure), shutting_down, id) == ReplyView::Answer(
            AnswerView { text: failure.message, is_error: true },
        ),
{
}

/// An unknown tool is refused by the protocol; whatever else is wrong with a request is
/// answered as an error of the tool, with its own message.
pub proof fn refused_requests_are_told_why(error: CatalogErrorView)
    ensures
        error.kind == CatalogErrorKind::UnknownTool ==> catalog_reply(error) == (ReplyView::Refuse {
            code: -32601i32,
            message: "unknown tool"@,
        }),
        error.kind != CatalogErrorKind::UnknownTool ==> catalog_reply(error) == ReplyView::Answer(
            AnswerView { text: error.message, is_error: true },
        ),
{
}

/// A call that is cancelled is answered by nothing while the server shuts down, and else by
/// an error of the protocol.
pub proof fn cancelled_calls_are_dropped(shutting_down: bool, id: RequestIdView)
    ensures
        outcome_reply(OutcomeView::Cancelled, shutting_down, id) == (if shutting_down {
            ReplyView::Silence
        } else {
            ReplyView::Refuse { code: -32603i32, message: "request cancelled"@ }
        }),
{
}

/// In the queue a call goes on exactly where it has got its slot.
pub proof fn calls_leave_the_queue(event: QueueEvent)
    ensures
        queue_outcome(event) is None <==> event == QueueEvent::Acquired,
        event == QueueEvent::Cancelled ==> queue_outcome(event) == Some(OutcomeView::Cancelled),
        event == QueueEvent::TimedOut ==> (queue_outcome(event) matches Some(
            OutcomeView::Failure(failure),
        ) && failure.kind == ToolFailureKind::Timeout && !failure.ambiguous && !failure.caused),
        event == QueueEvent::Closed ==> (queue_outcome(event) matches Some(
            OutcomeView::Failure(failure),
        ) && failure.kind == ToolFailureKind::Internal && !failure.ambiguous && !failure.caused),
{
}

/// Every byte of the identifier and of the result counts toward the frame.
pub proof fn frames_count_every_byte(id: nat, result: nat, more: nat)
    ensures
        frame_size(id, result) > id + result,
        frame_size(id + more, result) == frame_size(id, result) + more,
        frame_size(id, result + more) == frame_size(id, result) + more,
{
    reveal_strlit("}");
    crate::encoding::encode_not_shorter("}"@);
    assert("}"@.len() == 1);
}

/// An identifier stands for itself as a JSON value.
pub proof fn identifiers_stand_for_themselves(id: RequestIdView)
    ensures
        crate::mcp::request_id::id_of_tree(settled(id_tree(id))) == Some(id),
        crate::mcp::request_id::id_of_tree(id_tree(id)) == Some(id),
{
}

/// A message is answered by what the assistant says, an exact call by what the tools show
/// as well.
pub proof fn answers_go_by_the_route(route: RouteView, response: ResponseView)
    ensures
        route is Message ==> response_text(route, response) == standard_text(
            response.text,
            response.final_text,
            response.followups,
        ),
        route is Exact ==> response_text(route, response) == direct_text(
            response.results,
            response.text,
            response.followups,
            response.final_text,
        ),
{
}

/// Successes are written as successes and failures as failures, each with its text.
pub proof fn answers_are_written_by_their_kind(text: Seq<char>)
    ensures
        answer_bytes(AnswerView { text, is_error: true }) == error_bytes(text),
        answer_bytes(AnswerView { text, is_error: false }) == success_bytes(text),
{
}

/// A response of up to two megabytes is sent; a longer one, or one that cannot be written,
/// is replaced by an error.
pub proof fn responses_up_to_the_limit_are_sent(answer: AnswerView, size: nat)
    ensures
        size <= 2 * 1024 * 1024 ==> fitted(answer, Some(size)) == answer,
        size > 2 * 1024 * 1024 ==> fitted(answer, Some(size)).is_error && fitted(
            answer,
            Some(size),
        ).text == RESPONSE_TOO_LARGE_MESSAGE@,
        fitted(answer, None).is_error,
        fitted(answer, None).text == RESPONSE_TOO_LARGE_MESSAGE@,
{
}

} // verus!
