//! Exchanges with the assistant: a message, the internal tool calls that it leads to, and
//! the answer.

use vstd::prelude::*;

use crate::error::{limit_breach, protocol_breach, CallErrorView, FailureView};
use crate::error::{ClientCallError, ToolFailure, ToolFailureKind};
use crate::json::{array_view, lookup, Fields, JsonView};
use crate::json::{Json, JsonObject};
use crate::limits::INTERNAL_TOOL_STEPS_MAX;
use crate::naparnik::response::AssistantResponse;
use crate::naparnik::response::{absorbed, empty_response, ResponseView};
use crate::naparnik::tool_roundtrip::{
    build_standard_results,
    require_exact_tool,
    StepCounter,
};
use crate::naparnik::tool_roundtrip::{
    calls_breach,
    exact_breach,
    is_exact_tool_name,
    known_tools_are_accepted,
    standard_result,
    ToolCallView,
    EXACT_TOOL_NAMES,
};
use crate::naparnik::types::Conversation;
use crate::naparnik::types::ConversationView;

verus! {

/// A conversation after an answer: the next message answers it, where it has an
/// identifier.
pub open spec fn advanced(conversation: ConversationView, response: ResponseView) -> ConversationView {
    match response.uuid {
        Some(uuid) => ConversationView { parent: Some(uuid), ..conversation },
        None => conversation,
    }
}

/// What is wrong with an answer, if anything: tool calls without an identifier cannot be
/// answered.
pub open spec fn parent_breach(response: ResponseView) -> Option<FailureView> {
    if response.uuid is None && response.calls.len() > 0 {
        Some(protocol_breach("internal tool calls require an assistant message uuid"@))
    } else {
        None
    }
}

/// Lets the next message answer this one.
pub fn update_parent_from_response(
    conversation: &mut Conversation,
    response: &AssistantResponse,
) -> (res: Result<(), ClientCallError>)
    ensures
        final(conversation)@ == advanced(old(conversation)@, response@),
        match res {
            Ok(_) => parent_breach(response@) is None,
            Err(error) => parent_breach(response@) matches Some(failure) && error@
                == CallErrorView::Failure(failure),
        },
{
    match response.assistant_uuid() {
        Some(uuid) => {
            conversation.advance_parent(uuid.to_owned());
            return Ok(());
        },
        None => {},
    }
    if response.tool_calls().len() > 0 {
        return Err(
            ClientCallError::Failure(
                ToolFailure::new(
                    ToolFailureKind::UpstreamProtocol,
                    "internal tool calls require an assistant message uuid",
                    false,
                ),
            ),
        );
    }
    Ok(())
}

/// The answers to the calls of a round.
pub open spec fn round_results(calls: Seq<ToolCallView>) -> Seq<JsonView> {
    calls.map_values(|call: ToolCallView| standard_result(call))
}

/// Where an exchange stands: the conversation, the answer so far, and the rounds of tool
/// calls.
pub struct ExchangeView {
    pub conversation: ConversationView,
    pub combined: ResponseView,
    pub steps: nat,
}

/// What comes of a round.
pub enum RoundView {
    /// The exchange has ended.
    Finished,
    /// These results are to be sent.
    SendResults(Seq<JsonView>),
    Failed(CallErrorView),
}

/// Where an exchange stands after a round, and what comes of it.
pub open spec fn after_round(exchange: ExchangeView, round: ResponseView) -> (ExchangeView, RoundView) {
    let conversation = advanced(exchange.conversation, round);
    let told = ExchangeView { conversation, ..exchange };
    let heard = ExchangeView { combined: absorbed(exchange.combined, round), ..told };
    let counted = ExchangeView { steps: exchange.steps + 1, ..heard };
    if parent_breach(round) is Some {
        (told, RoundView::Failed(CallErrorView::Failure(parent_breach(round)->0)))
    } else if round.calls.len() == 0 {
        (heard, RoundView::Finished)
    } else if exchange.steps >= INTERNAL_TOOL_STEPS_MAX {
        (
            heard,
            RoundView::Failed(
                CallErrorView::Failure(
                    limit_breach("the internal tool step limit was exceeded"@),
                ),
            ),
        )
    } else if calls_breach(round.calls) is Some {
        (counted, RoundView::Failed(CallErrorView::Failure(calls_breach(round.calls)->0)))
    } else {
        (counted, RoundView::SendResults(round_results(round.calls)))
    }
}

/// What is to be done after a round.
#[derive(Debug)]
pub enum RoundStep {
    Finished,
    SendResults(Vec<Json>),
}

/// The content of a round's result.
pub open spec fn round_view(res: Result<RoundStep, ClientCallError>) -> RoundView {
    match res {
        Ok(RoundStep::Finished) => RoundView::Finished,
        Ok(RoundStep::SendResults(results)) => RoundView::SendResults(array_view(results@)),
        Err(error) => RoundView::Failed(error@),
    }
}

/// A message to the assistant, with as many rounds of internal tool calls as it takes.
#[derive(Debug)]
pub struct StandardExchange {
    conversation: Conversation,
    combined: AssistantResponse,
    steps: StepCounter,
}

impl View for StandardExchange {
    type V = ExchangeView;

    closed spec fn view(&self) -> ExchangeView {
        ExchangeView {
            conversation: self.conversation@,
            combined: self.combined@,
            steps: self.steps@,
        }
    }
}

impl StandardExchange {
    pub fn new(conversation: Conversation) -> (res: Self)
        ensures
            res@ == (ExchangeView {
                conversation: conversation@,
                combined: empty_response(),
                steps: 0,
            }),
    {
        Self {
            conversation,
            combined: AssistantResponse::default(),
            steps: StepCounter::default(),
        }
    }

    /// The conversation as it stands.
    pub fn conversation(&self) -> (res: &Conversation)
        ensures
            res@ == self@.conversation,
    {
        &self.conversation
    }

    /// Takes one round of the assistant's answer.
    pub fn round(&mut self, round: &AssistantResponse) -> (res: Result<RoundStep, ClientCallError>)
        ensures
            final(self)@ == after_round(old(self)@, round@).0,
            round_view(res) == after_round(old(self)@, round@).1,
    {
        match update_parent_from_response(&mut self.conversation, round) {
            Ok(_) => {},
            Err(error) => {
                return Err(error);
            },
        }
        self.combined.absorb_round(round);
        if round.tool_calls().len() == 0 {
            return Ok(RoundStep::Finished);
        }
        match self.steps.begin_step() {
            Ok(_) => {},
            Err(failure) => {
                return Err(ClientCallError::Failure(failure));
            },
        }
        match build_standard_results(round.tool_calls().as_slice()) {
            Ok(results) => Ok(RoundStep::SendResults(results)),
            Err(failure) => Err(ClientCallError::Failure(failure)),
        }
    }

    /// The whole answer.
    pub fn into_response(self) -> (res: AssistantResponse)
        ensures
            res@ == self@.combined,
    {
        self.combined
    }
}

/// Results are sent at most as often as the limit on internal tool steps allows.
pub proof fn tool_rounds_are_bounded(exchange: ExchangeView, round: ResponseView)
    requires
        exchange.steps <= INTERNAL_TOOL_STEPS_MAX,
    ensures
        after_round(exchange, round).0.steps <= INTERNAL_TOOL_STEPS_MAX,
        after_round(exchange, round).1 is SendResults ==> after_round(exchange, round).0.steps
            == exchange.steps + 1,
{
}

/// Every call of a round is answered, in order, before the exchange goes on; the results
/// answer the message that made the calls.
pub proof fn every_call_is_answered(exchange: ExchangeView, round: ResponseView)
    ensures
        after_round(exchange, round).1 matches RoundView::SendResults(results) ==> {
            &&& results.len() == round.calls.len()
            &&& forall|i: int|
                0 <= i < results.len() ==> #[trigger] results[i] == standard_result(round.calls[i])
            &&& after_round(exchange, round).0.conversation.parent == round.uuid
            &&& round.uuid is Some
        },
{
}

/// What is wrong with the first answer of an exact exchange, if anything.
pub open spec fn first_breach(first: ResponseView, name: Seq<char>, arguments: Fields) -> Option<
    FailureView,
> {
    if exact_breach(first.calls, name, arguments) is Some {
        exact_breach(first.calls, name, arguments)
    } else {
        parent_breach(first)
    }
}

/// What is wrong with the last answer of an exact exchange, if anything.
pub open spec fn last_breach(last: ResponseView) -> Option<FailureView> {
    if last.calls.len() > 0 {
        Some(
            protocol_breach("the exact internal tool produced an unexpected follow-up call"@),
        )
    } else {
        None
    }
}

/// Takes the first answer of an exact exchange: the one expected call. Gives the results
/// that are to be sent.
pub fn exact_first(
    conversation: &mut Conversation,
    first: &AssistantResponse,
    expected_tool_name: &str,
    expected_arguments: &JsonObject,
) -> (res: Result<Vec<Json>, ClientCallError>)
    ensures
        final(conversation)@ == (if exact_breach(
            first@.calls,
            expected_tool_name@,
            expected_arguments@,
        ) is Some {
            old(conversation)@
        } else {
            advanced(old(conversation)@, first@)
        }),
        match res {
            Ok(results) => first_breach(first@, expected_tool_name@, expected_arguments@) is None
                && array_view(results@) == round_results(first@.calls),
            Err(error) => first_breach(first@, expected_tool_name@, expected_arguments@) matches Some(
                failure,
            ) && error@ == CallErrorView::Failure(failure),
        },
{
    match require_exact_tool(
        first.tool_calls().as_slice(),
        expected_tool_name,
        expected_arguments,
    ) {
        Ok(_) => {},
        Err(failure) => {
            return Err(ClientCallError::Failure(failure));
        },
    }
    match update_parent_from_response(conversation, first) {
        Ok(_) => {},
        Err(error) => {
            return Err(error);
        },
    }
    match build_standard_results(first.tool_calls().as_slice()) {
        Ok(results) => Ok(results),
        Err(failure) => Err(ClientCallError::Failure(failure)),
    }
}

/// Takes the last answer of an exact exchange and gives the whole answer.
pub fn exact_last(
    conversation: &mut Conversation,
    first: &AssistantResponse,
    last: &AssistantResponse,
) -> (res: Result<AssistantResponse, ClientCallError>)
    ensures
        final(conversation)@ == (if last_breach(last@) is Some {
            old(conversation)@
        } else {
            advanced(old(conversation)@, last@)
        }),
        match res {
            Ok(response) => last_breach(last@) is None && response@ == absorbed(
                absorbed(empty_response(), first@),
                last@,
            ),
            Err(error) => last_breach(last@) matches Some(failure) && error@
                == CallErrorView::Failure(failure),
        },
{
    if last.tool_calls().len() > 0 {
        return Err(
            ClientCallError::Failure(
                ToolFailure::new(
                    ToolFailureKind::UpstreamProtocol,
                    "the exact internal tool produced an unexpected follow-up call",
                    false,
                ),
            ),
        );
    }
    match update_parent_from_response(conversation, last) {
        Ok(_) => {},
        Err(error) => {
            return Err(error);
        },
    }
    let mut combined: AssistantResponse = AssistantResponse::default();
    combined.absorb_round(first);
    combined.absorb_round(last);
    Ok(combined)
}

/// An exact exchange goes on only after exactly one call, of the expected tool.
pub proof fn exact_exchanges_take_one_call(first: ResponseView, name: Seq<char>, arguments: Fields)
    requires
        first_breach(first, name, arguments) is None,
    ensures
        first.calls.len() == 1,
        first.calls[0].name == name,
        first.uuid is Some,
{
}

/// What is sent back in an exact exchange is one result: the expected call is accepted,
/// under its identifier and without content.
pub proof fn exact_calls_are_accepted(first: ResponseView, name: Seq<char>, arguments: Fields)
    requires
        first_breach(first, name, arguments) is None,
    ensures
        round_results(first.calls).len() == 1,
        round_results(first.calls)[0] matches JsonView::Object(answer) && {
            &&& lookup(answer, "status"@) == Some(JsonView::Text("accepted"@))
            &&& lookup(answer, "tool_call_id"@) == Some(JsonView::Text(first.calls[0].id))
            &&& lookup(answer, "content"@) == Some(JsonView::Null)
        },
{
    known_tools_are_accepted(first.calls[0]);
    assert(round_results(first.calls)[0] == standard_result(first.calls[0]));
    let i = choose|i: int| 0 <= i < 5 && (#[trigger] EXACT_TOOL_NAMES[i])@ == name;
    assert(0 <= i < EXACT_TOOL_NAMES.len());
}

/// In each round the results stand in the order of the calls, each under the identifier of
/// its call: accepted where the tool is known, else rejected.
pub proof fn results_answer_their_calls(exchange: ExchangeView, round: ResponseView, at: int)
    requires
        0 <= at < round.calls.len(),
    ensures
        after_round(exchange, round).1 matches RoundView::SendResults(results) ==> results.len()
            == round.calls.len() && (results[at] matches JsonView::Object(answer) && {
            &&& lookup(answer, "tool_call_id"@) == Some(JsonView::Text(round.calls[at].id))
            &&& lookup(answer, "status"@) == Some(
                JsonView::Text(
                    if round.calls[at].name == "TaskResult"@ || is_exact_tool_name(
                        round.calls[at].name,
                    ) {
                        "accepted"@
                    } else {
                        "rejected"@
                    },
                ),
            )
        }),
{
    known_tools_are_accepted(round.calls[at]);
    if is_exact_tool_name(round.calls[at].name) {
        let i = choose|i: int|
            0 <= i < 5 && (#[trigger] EXACT_TOOL_NAMES[i])@ == round.calls[at].name;
        assert(0 <= i < EXACT_TOOL_NAMES.len());
    }
}

/// An exchange ends with the first round that calls no tool. A round that does goes on
/// while there are steps left, and a round of faulty calls fails.
pub proof fn rounds_go_on_while_tools_are_called(exchange: ExchangeView, round: ResponseView)
    requires
        round.uuid is Some,
    ensures
        round.calls.len() == 0 ==> after_round(exchange, round).1 is Finished,
        round.calls.len() > 0 && exchange.steps < 10 && calls_breach(round.calls) is None
            ==> after_round(exchange, round).1 is SendResults,
        round.calls.len() > 0 && (exchange.steps >= 10 || calls_breach(round.calls) is Some)
            ==> after_round(exchange, round).1 is Failed,
{
}

/// A round moves the conversation to the message that was answered, and only that: the
/// conversation stays the same one. What it shows and says joins what came before.
pub proof fn rounds_continue_the_conversation(exchange: ExchangeView, round: ResponseView)
    ensures
        ({
            let after = after_round(exchange, round).0;
            &&& after.conversation.id == exchange.conversation.id
            &&& after.conversation.parent == (if round.uuid is Some {
                round.uuid
            } else {
                exchange.conversation.parent
            })
            &&& parent_breach(round) is None ==> after.combined == absorbed(
                exchange.combined,
                round,
            )
            &&& parent_breach(round) is Some ==> after.combined == exchange.combined
            &&& parent_breach(round) is Some <==> round.uuid is None && round.calls.len() > 0
        }),
{
}

/// An exact exchange ends with an answer that calls no tool.
pub proof fn exact_exchanges_end_without_calls(last: ResponseView)
    ensures
        last_breach(last) is None <==> last.calls.len() == 0,
        last_breach(last) matches Some(failure) ==> failure.kind == ToolFailureKind::UpstreamProtocol
            && !failure.ambiguous,
{
}

} // verus!
