//! The answer of the service, gathered event by event.

use vstd::prelude::*;
use vstd::utf8::encode_utf8;

use crate::error::{
    caused_protocol_breach,
    limit_breach,
    protocol_breach,
    CallErrorView,
    FailureView,
};
use crate::error::{ClientCallError, ToolFailure, ToolFailureKind};
use crate::json::{array_view, lookup, Fields, JsonView};
use crate::json::{duplicate_all, Json, JsonObject};
use crate::json_text::{json_size, parse_json};
use crate::json_text::{text_tree, tree_size};
use crate::limits::SSE_STREAM_MAX_BYTES;
use crate::naparnik::event_fields::{
    listed_calls,
    object_field,
    rendered_info,
    rendered_items,
    text_field,
};
use crate::naparnik::event_fields::{
    optional_object,
    optional_string,
    parse_rendered_tool_results,
    parse_tool_calls,
    protocol_tool_failure,
};
use crate::naparnik::merge::merge_text;
use crate::naparnik::merge::{merge_keeps_both, merge_keeps_the_fuller_text, merged};
use crate::naparnik::tool_roundtrip::ToolCall;
use crate::naparnik::tool_roundtrip::{call_views, ToolCallView};
use crate::naparnik::types::optional_text;
use crate::strings::same_text;
use crate::strings::{occurs_in, trimmed};

verus! {

/// What a tool shows of its work.
#[derive(Debug)]
pub struct RenderedToolResult {
    response_markdown: String,
    response_details: Vec<Json>,
}

/// The content of a [`RenderedToolResult`].
pub struct RenderedView {
    pub markdown: Seq<char>,
    pub details: Seq<JsonView>,
}

impl View for RenderedToolResult {
    type V = RenderedView;

    closed spec fn view(&self) -> RenderedView {
        RenderedView {
            markdown: self.response_markdown@,
            details: array_view(self.response_details@),
        }
    }
}

impl RenderedToolResult {
    pub fn new(response_markdown: String, response_details: Vec<Json>) -> (res: Self)
        ensures
            res@ == (RenderedView {
                markdown: response_markdown@,
                details: array_view(response_details@),
            }),
    {
        Self { response_markdown, response_details }
    }

    pub fn response_markdown(&self) -> (res: &str)
        ensures
            res@ == self@.markdown,
    {
        self.response_markdown.as_str()
    }

    pub fn response_details(&self) -> (res: &Vec<Json>)
        ensures
            array_view(res@) == self@.details,
    {
        &self.response_details
    }

    /// A copy.
    pub fn duplicate(&self) -> (res: RenderedToolResult)
        ensures
            res@ == self@,
    {
        RenderedToolResult {
            response_markdown: self.response_markdown.clone(),
            response_details: duplicate_all(&self.response_details),
        }
    }
}

/// The content of a list of rendered results.
pub open spec fn rendered_views(results: Seq<RenderedToolResult>) -> Seq<RenderedView> {
    results.map_values(|result: RenderedToolResult| result@)
}

/// The content of a list of texts.
pub open spec fn text_views(texts: Seq<String>) -> Seq<Seq<char>> {
    texts.map_values(|text: String| text@)
}

/// What the assistant has answered.
#[derive(Debug)]
pub struct AssistantResponse {
    text: String,
    final_text: String,
    reasoning: String,
    assistant_uuid: Option<String>,
    tool_calls: Vec<ToolCall>,
    tool_results: Vec<RenderedToolResult>,
    tool_followups: Vec<String>,
}

/// The content of an [`AssistantResponse`].
#[verifier::ext_equal]
pub struct ResponseView {
    pub text: Seq<char>,
    pub final_text: Seq<char>,
    pub reasoning: Seq<char>,
    pub uuid: Option<Seq<char>>,
    pub calls: Seq<ToolCallView>,
    pub results: Seq<RenderedView>,
    pub followups: Seq<Seq<char>>,
}

impl View for AssistantResponse {
    type V = ResponseView;

    closed spec fn view(&self) -> ResponseView {
        ResponseView {
            text: self.text@,
            final_text: self.final_text@,
            reasoning: self.reasoning@,
            uuid: optional_text(self.assistant_uuid),
            calls: call_views(self.tool_calls@),
            results: rendered_views(self.tool_results@),
            followups: text_views(self.tool_followups@),
        }
    }
}

/// An answer of which nothing has come yet.
pub open spec fn empty_response() -> ResponseView {
    ResponseView {
        text: Seq::empty(),
        final_text: Seq::empty(),
        reasoning: Seq::empty(),
        uuid: None,
        calls: Seq::empty(),
        results: Seq::empty(),
        followups: Seq::empty(),
    }
}

/// The answer of several rounds after one more round.
pub open spec fn absorbed(combined: ResponseView, round: ResponseView) -> ResponseView {
    ResponseView {
        text: merged(combined.text, round.text),
        final_text: if round.final_text.len() > 0 {
            round.final_text
        } else {
            combined.final_text
        },
        reasoning: merged(combined.reasoning, round.reasoning),
        uuid: if round.uuid is Some {
            round.uuid
        } else {
            combined.uuid
        },
        calls: round.calls,
        results: combined.results + round.results,
        followups: combined.followups + round.followups,
    }
}

/// The bytes that the calls take.
pub open spec fn calls_size(calls: Seq<ToolCallView>) -> nat
    decreases calls.len(),
{
    if calls.len() == 0 {
        0
    } else {
        let call = calls.last();
        calls_size(calls.drop_last()) + encode_utf8(call.id).len() + encode_utf8(call.name).len()
            + tree_size(JsonView::Object(call.arguments))
    }
}

/// The bytes that JSON values take.
pub open spec fn trees_size(trees: Seq<JsonView>) -> nat
    decreases trees.len(),
{
    if trees.len() == 0 {
        0
    } else {
        trees_size(trees.drop_last()) + tree_size(trees.last())
    }
}

/// The bytes that rendered results take.
pub open spec fn results_size(results: Seq<RenderedView>) -> nat
    decreases results.len(),
{
    if results.len() == 0 {
        0
    } else {
        results_size(results.drop_last()) + encode_utf8(results.last().markdown).len() + trees_size(
            results.last().details,
        )
    }
}

/// The bytes that texts take.
pub open spec fn texts_size(texts: Seq<Seq<char>>) -> nat
    decreases texts.len(),
{
    if texts.len() == 0 {
        0
    } else {
        texts_size(texts.drop_last()) + encode_utf8(texts.last()).len()
    }
}

/// The bytes that an answer takes.
pub open spec fn response_size(response: ResponseView) -> nat {
    encode_utf8(response.text).len() + encode_utf8(response.reasoning).len() + (match response.uuid {
        Some(uuid) => encode_utf8(uuid).len(),
        None => 0,
    }) + calls_size(response.calls) + results_size(response.results) + texts_size(
        response.followups,
    )
}

/// A size as far as a machine integer can hold it.
pub open spec fn saturated(size: nat) -> nat {
    if size <= usize::MAX {
        size
    } else {
        usize::MAX as nat
    }
}

impl Default for AssistantResponse {
    fn default() -> (res: Self)
        ensures
            res@ == empty_response(),
    {
        let response: AssistantResponse = AssistantResponse {
            text: String::new(),
            final_text: String::new(),
            reasoning: String::new(),
            assistant_uuid: None,
            tool_calls: Vec::new(),
            tool_results: Vec::new(),
            tool_followups: Vec::new(),
        };
        proof {
            assert(response@ =~= empty_response());
        }
        response
    }
}

impl AssistantResponse {
    pub fn text(&self) -> (res: &str)
        ensures
            res@ == self@.text,
    {
        self.text.as_str()
    }

    pub fn final_text(&self) -> (res: &str)
        ensures
            res@ == self@.final_text,
    {
        self.final_text.as_str()
    }

    pub fn tool_results(&self) -> (res: &Vec<RenderedToolResult>)
        ensures
            rendered_views(res@) == self@.results,
    {
        &self.tool_results
    }

    pub fn tool_followups(&self) -> (res: &Vec<String>)
        ensures
            text_views(res@) == self@.followups,
    {
        &self.tool_followups
    }

    pub fn reasoning(&self) -> (res: &str)
        ensures
            res@ == self@.reasoning,
    {
        self.reasoning.as_str()
    }

    pub fn assistant_uuid(&self) -> (res: Option<&str>)
        ensures
            match res {
                Some(text) => self@.uuid == Some(text@),
                None => self@.uuid is None,
            },
    {
        match &self.assistant_uuid {
            Some(text) => Some(text.as_str()),
            None => None,
        }
    }

    pub fn tool_calls(&self) -> (res: &Vec<ToolCall>)
        ensures
            call_views(res@) == self@.calls,
    {
        &self.tool_calls
    }

    /// Adds the answer of one more round.
    pub fn absorb_round(&mut self, round: &AssistantResponse)
        ensures
            final(self)@ == absorbed(old(self)@, round@),
    {
        merge_text(&mut self.text, round.text.as_str());
        merge_text(&mut self.reasoning, round.reasoning.as_str());
        match &round.assistant_uuid {
            Some(uuid) => {
                self.assistant_uuid = Some(uuid.clone());
            },
            None => {},
        }
        let mut calls: Vec<ToolCall> = Vec::new();
        let mut i: usize = 0;
        while i < round.tool_calls.len()
            invariant
                i <= round.tool_calls@.len(),
                calls@.len() == i,
                forall|k: int| 0 <= k < i ==> (#[trigger] calls@[k])@ == round.tool_calls@[k]@,
            decreases round.tool_calls@.len() - i,
        {
            calls.push(round.tool_calls[i].duplicate());
            i += 1;
        }
        assert(call_views(calls@) =~= round@.calls);
        self.tool_calls = calls;
        let ghost results: Seq<RenderedView> = self@.results;
        let ghost followups: Seq<Seq<char>> = self@.followups;
        let ghost before: ResponseView = self@;
        let mut n: usize = 0;
        while n < round.tool_results.len()
            invariant
                n <= round.tool_results@.len(),
                self@ == (ResponseView { results: results + round@.results.take(n as int), ..before }),
            decreases round.tool_results@.len() - n,
        {
            let ghost so_far: Seq<RenderedToolResult> = self.tool_results@;
            let copy: RenderedToolResult = round.tool_results[n].duplicate();
            self.tool_results.push(copy);
            assert(rendered_views(self.tool_results@) =~= rendered_views(so_far).push(copy@));
            assert(results + round@.results.take(n + 1) =~= (results + round@.results.take(
                n as int,
            )).push(copy@));
            n += 1;
        }
        assert(round@.results.take(round@.results.len() as int) =~= round@.results);
        let ghost between: ResponseView = self@;
        let mut m: usize = 0;
        while m < round.tool_followups.len()
            invariant
                m <= round.tool_followups@.len(),
                self@ == (ResponseView {
                    followups: followups + round@.followups.take(m as int),
                    ..between
                }),
            decreases round.tool_followups@.len() - m,
        {
            let ghost so_far: Seq<String> = self.tool_followups@;
            let copy: String = round.tool_followups[m].clone();
            self.tool_followups.push(copy);
            assert(text_views(self.tool_followups@) =~= text_views(so_far).push(copy@));
            assert(followups + round@.followups.take(m + 1) =~= (followups + round@.followups.take(
                m as int,
            )).push(copy@));
            m += 1;
        }
        assert(round@.followups.take(round@.followups.len() as int) =~= round@.followups);
        if !round.final_text.as_str().is_empty() {
            self.final_text = round.final_text.clone();
        }
    }

    /// How many bytes the answer takes.
    pub fn buffered_bytes(&self) -> (res: usize)
        ensures
            res == saturated(response_size(self@)),
    {
        let mut total: usize = self.text.as_str().as_bytes().len().saturating_add(
            self.reasoning.as_str().as_bytes().len(),
        );
        match &self.assistant_uuid {
            Some(uuid) => {
                total = total.saturating_add(uuid.as_str().as_bytes().len());
            },
            None => {},
        }
        let ghost base: nat = encode_utf8(self@.text).len() + encode_utf8(self@.reasoning).len() + (
        match self@.uuid {
            Some(uuid) => encode_utf8(uuid).len(),
            None => 0,
        });
        let mut i: usize = 0;
        while i < self.tool_calls.len()
            invariant
                i <= self.tool_calls@.len(),
                total == saturated(base + calls_size(self@.calls.take(i as int))),
            decreases self.tool_calls@.len() - i,
        {
            let call: &ToolCall = &self.tool_calls[i];
            assert(self@.calls.take(i + 1).drop_last() =~= self@.calls.take(i as int));
            let arguments: Json = Json::Object(call.arguments().duplicate());
            total =
            total.saturating_add(call.id().as_bytes().len()).saturating_add(
                call.name().as_bytes().len(),
            ).saturating_add(json_size(&arguments));
            i += 1;
        }
        assert(self@.calls.take(self@.calls.len() as int) =~= self@.calls);
        let ghost with_calls: nat = base + calls_size(self@.calls);
        let mut n: usize = 0;
        while n < self.tool_results.len()
            invariant
                n <= self.tool_results@.len(),
                total == saturated(with_calls + results_size(self@.results.take(n as int))),
            decreases self.tool_results@.len() - n,
        {
            let result: &RenderedToolResult = &self.tool_results[n];
            assert(self@.results.take(n + 1).drop_last() =~= self@.results.take(n as int));
            total = total.saturating_add(result.response_markdown().as_bytes().len());
            total = saturating_trees(total, result.response_details());
            n += 1;
        }
        assert(self@.results.take(self@.results.len() as int) =~= self@.results);
        let ghost with_results: nat = with_calls + results_size(self@.results);
        let mut m: usize = 0;
        while m < self.tool_followups.len()
            invariant
                m <= self.tool_followups@.len(),
                total == saturated(with_results + texts_size(self@.followups.take(m as int))),
            decreases self.tool_followups@.len() - m,
        {
            assert(self@.followups.take(m + 1).drop_last() =~= self@.followups.take(m as int));
            total = total.saturating_add(self.tool_followups[m].as_str().as_bytes().len());
            m += 1;
        }
        assert(self@.followups.take(self@.followups.len() as int) =~= self@.followups);
        total
    }
}

fn saturating_trees(start: usize, trees: &Vec<Json>) -> (res: usize)
    ensures
        res == saturated(start as nat + trees_size(array_view(trees@))),
{
    let ghost views: Seq<JsonView> = array_view(trees@);
    let mut total: usize = start;
    let mut i: usize = 0;
    while i < trees.len()
        invariant
            i <= trees@.len(),
            views == array_view(trees@),
            total == saturated(start as nat + trees_size(views.take(i as int))),
        decreases trees@.len() - i,
    {
        assert(views.take(i + 1).drop_last() =~= views.take(i as int));
        total = total.saturating_add(json_size(&trees[i]));
        i += 1;
    }
    assert(views.take(views.len() as int) =~= views);
    total
}

/// An answer in the middle of an event: which of its parts the event's snapshot has
/// settled, and what was wrong with the event, if anything.
pub struct Progress {
    pub response: ResponseView,
    pub text: bool,
    pub reasoning: bool,
    pub calls: bool,
    pub failure: Option<FailureView>,
}

/// The event goes no further.
pub open spec fn stopped(progress: Progress, failure: FailureView) -> Progress {
    Progress { failure: Some(failure), ..progress }
}

/// The text is replaced by that of a snapshot, if there is one.
pub open spec fn set_text(
    progress: Progress,
    field: Result<Option<Seq<char>>, FailureView>,
) -> Progress {
    match field {
        Err(failure) => stopped(progress, failure),
        Ok(None) => progress,
        Ok(Some(text)) => Progress {
            response: ResponseView { text, ..progress.response },
            text: true,
            ..progress
        },
    }
}

/// The reasoning is replaced by that of a snapshot, if there is one.
pub open spec fn set_reasoning(
    progress: Progress,
    field: Result<Option<Seq<char>>, FailureView>,
) -> Progress {
    if progress.failure is Some {
        progress
    } else {
        match field {
            Err(failure) => stopped(progress, failure),
            Ok(None) => progress,
            Ok(Some(reasoning)) => Progress {
                response: ResponseView { reasoning, ..progress.response },
                reasoning: true,
                ..progress
            },
        }
    }
}

/// The calls are replaced by those of a field, if it is there and not null.
pub open spec fn set_calls(progress: Progress, field: Option<JsonView>) -> Progress {
    if progress.failure is Some {
        progress
    } else {
        match field {
            None => progress,
            Some(JsonView::Null) => progress,
            Some(value) => match listed_calls(value) {
                Err(failure) => stopped(progress, failure),
                Ok(calls) => Progress {
                    response: ResponseView { calls, ..progress.response },
                    calls: true,
                    ..progress
                },
            },
        }
    }
}

/// The text goes on, unless a snapshot has settled it.
pub open spec fn add_text(
    progress: Progress,
    field: Result<Option<Seq<char>>, FailureView>,
) -> Progress {
    if progress.failure is Some || progress.text {
        progress
    } else {
        match field {
            Err(failure) => stopped(progress, failure),
            Ok(None) => progress,
            Ok(Some(text)) => Progress {
                response: ResponseView {
                    text: progress.response.text + text,
                    ..progress.response
                },
                ..progress
            },
        }
    }
}

/// The reasoning goes on, unless a snapshot has settled it.
pub open spec fn add_reasoning(
    progress: Progress,
    field: Result<Option<Seq<char>>, FailureView>,
) -> Progress {
    if progress.failure is Some || progress.reasoning {
        progress
    } else {
        match field {
            Err(failure) => stopped(progress, failure),
            Ok(None) => progress,
            Ok(Some(reasoning)) => Progress {
                response: ResponseView {
                    reasoning: progress.response.reasoning + reasoning,
                    ..progress.response
                },
                ..progress
            },
        }
    }
}

/// After the snapshot in the `content` field.
pub open spec fn after_snapshot(response: ResponseView, event: Fields) -> Progress {
    let start = Progress { response, text: false, reasoning: false, calls: false, failure: None };
    match object_field(event, "content"@) {
        Err(failure) => stopped(start, failure),
        Ok(None) => start,
        Ok(Some(content)) => set_calls(
            set_reasoning(
                set_text(start, text_field(content, "content"@)),
                text_field(content, "reasoning_content"@),
            ),
            lookup(content, "tool_calls"@),
        ),
    }
}

/// After the addition in the `content_delta` field.
pub open spec fn after_delta(progress: Progress, event: Fields) -> Progress {
    if progress.failure is Some {
        progress
    } else {
        match object_field(event, "content_delta"@) {
            Err(failure) => stopped(progress, failure),
            Ok(None) => progress,
            Ok(Some(delta)) => add_reasoning(
                add_text(progress, text_field(delta, "content"@)),
                text_field(delta, "reasoning_content"@),
            ),
        }
    }
}

/// After the fields of the event itself: a snapshot wins over them too.
pub open spec fn after_own_fields(progress: Progress, event: Fields) -> Progress {
    let reasoned = add_reasoning(progress, text_field(event, "reasoning_content"@));
    if reasoned.calls {
        reasoned
    } else {
        set_calls(reasoned, lookup(event, "tool_calls"@))
    }
}

/// An answer after an event, and whether the event ends it.
pub struct EventOutcome {
    pub response: ResponseView,
    pub result: Result<bool, FailureView>,
}

pub open spec fn refused(response: ResponseView, failure: FailureView) -> EventOutcome {
    EventOutcome { response, result: Err(failure) }
}

/// The answer is within its limit.
pub open spec fn within_limit(response: ResponseView) -> bool {
    response_size(response) <= SSE_STREAM_MAX_BYTES
}

/// A finished tool event: what the tool has shown is kept.
pub open spec fn after_tool_event(response: ResponseView, event: Fields) -> EventOutcome {
    match rendered_info(lookup(event, "render_info"@)) {
        Err(failure) => refused(response, failure),
        Ok(results) => {
            let grown = ResponseView { results: response.results + results, ..response };
            if within_limit(grown) {
                EventOutcome { response: grown, result: Ok(false) }
            } else {
                refused(grown, limit_breach("the accumulated SSE result exceeds the size limit"@))
            }
        },
    }
}

/// Any other event: what it says of the answer is taken over.
pub open spec fn after_message_event(
    response: ResponseView,
    event: Fields,
    ends_answer: bool,
) -> EventOutcome {
    let progress = after_own_fields(after_delta(after_snapshot(response, event), event), event);
    match progress.failure {
        Some(failure) => refused(progress.response, failure),
        None => if !within_limit(progress.response) {
            refused(
                progress.response,
                limit_breach("the accumulated SSE result exceeds the size limit"@),
            )
        } else if ends_answer && progress.response.calls.len() > 0 && progress.response.uuid
            is None {
            refused(
                progress.response,
                protocol_breach("internal tool calls require an assistant message uuid"@),
            )
        } else {
            EventOutcome { response: progress.response, result: Ok(ends_answer) }
        },
    }
}

/// The `finished` field of an event.
pub open spec fn finished_field(event: Fields) -> Result<bool, FailureView> {
    match lookup(event, "finished"@) {
        None => Ok(false),
        Some(JsonView::Bool(finished)) => Ok(finished),
        Some(_) => Err(protocol_breach("an SSE event contains an invalid finished field"@)),
    }
}

/// An answer after an event with these fields.
pub open spec fn after_event_fields(response: ResponseView, event: Fields) -> EventOutcome {
    match text_field(event, "role"@) {
        Err(failure) => refused(response, failure),
        Ok(role) => match text_field(event, "uuid"@) {
            Err(failure) => refused(response, failure),
            Ok(uuid) => {
                let assistant = role == Some("assistant"@);
                if assistant && uuid is Some && uuid->0.len() == 0 {
                    refused(
                        response,
                        protocol_breach("an assistant SSE event contains an empty uuid"@),
                    )
                } else {
                    let named = if assistant && uuid is Some {
                        ResponseView { uuid, ..response }
                    } else {
                        response
                    };
                    match finished_field(event) {
                        Err(failure) => refused(named, failure),
                        Ok(finished) => if role == Some("tool"@) && finished {
                            after_tool_event(named, event)
                        } else {
                            after_message_event(named, event, finished && assistant)
                        },
                    }
                }
            },
        },
    }
}

/// An answer after an event, by what its data says as JSON.
pub open spec fn after_event(response: ResponseView, event: Option<JsonView>) -> EventOutcome {
    match event {
        None => refused(
            response,
            caused_protocol_breach("an SSE event contains invalid JSON"@),
        ),
        Some(JsonView::Object(fields)) => after_event_fields(response, fields),
        Some(_) => refused(
            response,
            protocol_breach("an SSE event must contain a JSON object"@),
        ),
    }
}

/// The answer as it is handed on at its end.
pub open spec fn finished_response(response: ResponseView) -> Result<ResponseView, FailureView> {
    if response.calls.len() > 0 && response.uuid is None {
        Err(protocol_breach("internal tool calls require an assistant message uuid"@))
    } else {
        Ok(ResponseView { final_text: trimmed(response.text), ..response })
    }
}

/// The answer of one stream while it is read.
#[derive(Debug)]
pub struct ResponseState {
    response: AssistantResponse,
}

impl View for ResponseState {
    type V = ResponseView;

    closed spec fn view(&self) -> ResponseView {
        self.response@
    }
}

impl Default for ResponseState {
    fn default() -> (res: Self)
        ensures
            res@ == empty_response(),
    {
        ResponseState { response: AssistantResponse::default() }
    }
}

impl ResponseState {
    /// How many bytes the answer takes so far.
    pub fn buffered_bytes(&self) -> (res: usize)
        ensures
            res == saturated(response_size(self@)),
    {
        self.response.buffered_bytes()
    }

    /// Takes over the data of one event; tells whether it ends the answer.
    pub fn apply_json_event(&mut self, data: &str) -> (res: Result<bool, ClientCallError>)
        ensures
            ({
                let outcome = after_event(old(self)@, text_tree(data@));
                &&& final(self)@ == outcome.response
                &&& outcome_agrees(res, outcome.result)
            }),
    {
        self.apply_event(parse_json(data))
    }

    /// Takes over one event, given what its data says as JSON.
    pub fn apply_event(&mut self, event: Option<Json>) -> (res: Result<bool, ClientCallError>)
        ensures
            ({
                let outcome = after_event(
                    old(self)@,
                    match event {
                        Some(json) => Some(json@),
                        None => None,
                    },
                );
                &&& final(self)@ == outcome.response
                &&& outcome_agrees(res, outcome.result)
            }),
    {
        let result: Result<bool, ToolFailure> = match event {
            None => Err(
                ToolFailure::with_cause(
                    ToolFailureKind::UpstreamProtocol,
                    "an SSE event contains invalid JSON",
                    false,
                    (),
                ),
            ),
            Some(Json::Object(object)) => self.apply_fields(&object),
            Some(_) => Err(protocol_tool_failure("an SSE event must contain a JSON object")),
        };
        match result {
            Ok(finished) => Ok(finished),
            Err(failure) => Err(ClientCallError::Failure(failure)),
        }
    }

    fn apply_fields(&mut self, object: &JsonObject) -> (res: Result<bool, ToolFailure>)
        ensures
            ({
                let outcome = after_event_fields(old(self)@, object@);
                &&& final(self)@ == outcome.response
                &&& step_agrees(res, outcome.result)
            }),
    {
        let role: Option<&str> = match optional_string(object, "role") {
            Ok(role) => role,
            Err(failure) => {
                return Err(failure);
            },
        };
        let uuid: Option<&str> = match optional_string(object, "uuid") {
            Ok(uuid) => uuid,
            Err(failure) => {
                return Err(failure);
            },
        };
        let assistant: bool = match role {
            Some(role) => same_text(role, "assistant"),
            None => false,
        };
        let tool: bool = match role {
            Some(role) => same_text(role, "tool"),
            None => false,
        };
        if assistant {
            match uuid {
                Some(uuid) => {
                    if uuid.is_empty() {
                        return Err(
                            protocol_tool_failure("an assistant SSE event contains an empty uuid"),
                        );
                    }
                    self.response.assistant_uuid = Some(uuid.to_owned());
                },
                None => {},
            }
        }
        let finished: bool = match object.get("finished") {
            Some(Json::Bool(value)) => *value,
            Some(_) => {
                return Err(
                    protocol_tool_failure("an SSE event contains an invalid finished field"),
                );
            },
            None => false,
        };
        if tool && finished {
            self.apply_tool_event(object)
        } else {
            self.apply_message_event(object, finished && assistant)
        }
    }

    fn apply_tool_event(&mut self, object: &JsonObject) -> (res: Result<bool, ToolFailure>)
        ensures
            ({
                let outcome = after_tool_event(old(self)@, object@);
                &&& final(self)@ == outcome.response
                &&& step_agrees(res, outcome.result)
            }),
    {
        match parse_rendered_tool_results(object.get("render_info")) {
            Err(failure) => Err(failure),
            Ok(results) => {
                let ghost before: Seq<RenderedToolResult> = self.response.tool_results@;
                let ghost shown: Seq<RenderedToolResult> = results@;
                let mut results: Vec<RenderedToolResult> = results;
                self.response.tool_results.append(&mut results);
                assert(rendered_views(before + shown) =~= rendered_views(before) + rendered_views(
                    shown,
                ));
                match self.enforce_accumulated_limit() {
                    Ok(_) => Ok(false),
                    Err(failure) => Err(failure),
                }
            },
        }
    }

    fn apply_message_event(&mut self, object: &JsonObject, ends_answer: bool) -> (res: Result<
        bool,
        ToolFailure,
    >)
        ensures
            ({
                let outcome = after_message_event(old(self)@, object@, ends_answer);
                &&& final(self)@ == outcome.response
                &&& step_agrees(res, outcome.result)
            }),
    {
        let settled: Settled = match self.apply_snapshot(object) {
            Ok(settled) => settled,
            Err(failure) => {
                return Err(failure);
            },
        };
        match self.apply_delta(object, &settled) {
            Ok(_) => {},
            Err(failure) => {
                return Err(failure);
            },
        }
        match self.apply_own_fields(object, &settled) {
            Ok(_) => {},
            Err(failure) => {
                return Err(failure);
            },
        }
        match self.enforce_accumulated_limit() {
            Ok(_) => {},
            Err(failure) => {
                return Err(failure);
            },
        }
        if ends_answer && self.response.tool_calls.len() > 0
            && self.response.assistant_uuid.is_none() {
            return Err(
                protocol_tool_failure("internal tool calls require an assistant message uuid"),
            );
        }
        Ok(ends_answer)
    }

    fn apply_snapshot(&mut self, object: &JsonObject) -> (res: Result<Settled, ToolFailure>)
        ensures
            ({
                let progress = after_snapshot(old(self)@, object@);
                &&& final(self)@ == progress.response
                &&& match res {
                    Ok(settled) => progress.failure is None && settled.text == progress.text
                        && settled.reasoning == progress.reasoning && settled.calls
                        == progress.calls,
                    Err(failure) => progress.failure == Some(failure@),
                }
            }),
    {
        let mut settled: Settled = Settled { text: false, reasoning: false, calls: false };
        let content: &JsonObject = match optional_object(object, "content") {
            Ok(Some(content)) => content,
            Ok(None) => {
                return Ok(settled);
            },
            Err(failure) => {
                return Err(failure);
            },
        };
        match optional_string(content, "content") {
            Ok(Some(snapshot)) => {
                self.response.text = snapshot.to_owned();
                settled.text = true;
            },
            Ok(None) => {},
            Err(failure) => {
                return Err(failure);
            },
        }
        match optional_string(content, "reasoning_content") {
            Ok(Some(reasoning)) => {
                self.response.reasoning = reasoning.to_owned();
                settled.reasoning = true;
            },
            Ok(None) => {},
            Err(failure) => {
                return Err(failure);
            },
        }
        match self.replace_calls(content) {
            Ok(calls) => {
                settled.calls = calls;
            },
            Err(failure) => {
                return Err(failure);
            },
        }
        Ok(settled)
    }

    /// Takes over the calls of an object, if it has any field for them.
    fn replace_calls(&mut self, object: &JsonObject) -> (res: Result<bool, ToolFailure>)
        ensures
            forall|progress: Progress|
                progress.response == old(self)@ && progress.failure is None ==> {
                    let next = #[trigger] set_calls(progress, lookup(object@, "tool_calls"@));
                    &&& final(self)@ == next.response
                    &&& match res {
                        Ok(calls) => next.failure is None && (next.calls <==> progress.calls
                            || calls),
                        Err(failure) => next.failure == Some(failure@),
                    }
                },
    {
        match object.get("tool_calls") {
            None | Some(Json::Null) => Ok(false),
            Some(calls) => match parse_tool_calls(calls) {
                Ok(calls) => {
                    self.response.tool_calls = calls;
                    Ok(true)
                },
                Err(failure) => Err(failure),
            },
        }
    }

    fn apply_delta(&mut self, object: &JsonObject, settled: &Settled) -> (res: Result<
        (),
        ToolFailure,
    >)
        ensures
            ({
                let next = after_delta(settled.progress(old(self)@), object@);
                &&& final(self)@ == next.response
                &&& match res {
                    Ok(_) => next == settled.progress(final(self)@),
                    Err(failure) => next.failure == Some(failure@),
                }
            }),
    {
        let delta: &JsonObject = match optional_object(object, "content_delta") {
            Ok(Some(delta)) => delta,
            Ok(None) => {
                return Ok(());
            },
            Err(failure) => {
                return Err(failure);
            },
        };
        if !settled.text {
            match optional_string(delta, "content") {
                Ok(Some(text)) => {
                    self.response.text.append(text);
                },
                Ok(None) => {},
                Err(failure) => {
                    return Err(failure);
                },
            }
        }
        if !settled.reasoning {
            match optional_string(delta, "reasoning_content") {
                Ok(Some(reasoning)) => {
                    self.response.reasoning.append(reasoning);
                },
                Ok(None) => {},
                Err(failure) => {
                    return Err(failure);
                },
            }
        }
        Ok(())
    }

    fn apply_own_fields(&mut self, object: &JsonObject, settled: &Settled) -> (res: Result<
        (),
        ToolFailure,
    >)
        ensures
            ({
                let next = after_own_fields(settled.progress(old(self)@), object@);
                &&& final(self)@ == next.response
                &&& match res {
                    Ok(_) => next.failure is None,
                    Err(failure) => next.failure == Some(failure@),
                }
            }),
    {
        if !settled.reasoning {
            match optional_string(object, "reasoning_content") {
                Ok(Some(reasoning)) => {
                    self.response.reasoning.append(reasoning);
                },
                Ok(None) => {},
                Err(failure) => {
                    return Err(failure);
                },
            }
        }
        if !settled.calls {
            match self.replace_calls(object) {
                Ok(_) => {},
                Err(failure) => {
                    return Err(failure);
                },
            }
        }
        Ok(())
    }

    fn enforce_accumulated_limit(&self) -> (res: Result<(), ToolFailure>)
        ensures
            match res {
                Ok(_) => within_limit(self@),
                Err(failure) => !within_limit(self@) && failure@ == limit_breach(
                    "the accumulated SSE result exceeds the size limit"@,
                ),
            },
    {
        if self.response.buffered_bytes() > SSE_STREAM_MAX_BYTES {
            return Err(
                ToolFailure::new(
                    ToolFailureKind::LimitExceeded,
                    "the accumulated SSE result exceeds the size limit",
                    false,
                ),
            );
        }
        Ok(())
    }

    /// Hands the answer on.
    pub fn finish(self) -> (res: Result<AssistantResponse, ClientCallError>)
        ensures
            match res {
                Ok(response) => finished_response(self@) == Ok::<_, FailureView>(response@),
                Err(error) => finished_response(self@) is Err && error@ == CallErrorView::Failure(
                    finished_response(self@)->Err_0,
                ),
            },
    {
        if self.response.tool_calls.len() > 0 && self.response.assistant_uuid.is_none() {
            return Err(
                ClientCallError::Failure(
                    protocol_tool_failure("internal tool calls require an assistant message uuid"),
                ),
            );
        }
        let mut response: AssistantResponse = self.response;
        response.final_text = response.text.as_str().trim().to_owned();
        Ok(response)
    }
}

/// Which parts of the answer a snapshot has settled.
struct Settled {
    text: bool,
    reasoning: bool,
    calls: bool,
}

impl Settled {
    spec fn progress(self, response: ResponseView) -> Progress {
        Progress {
            response,
            text: self.text,
            reasoning: self.reasoning,
            calls: self.calls,
            failure: None,
        }
    }
}

/// The result of a step is the one that was owed.
pub open spec fn step_agrees(res: Result<bool, ToolFailure>, owed: Result<bool, FailureView>) -> bool {
    match res {
        Ok(finished) => owed == Ok::<_, FailureView>(finished),
        Err(failure) => owed == Err::<bool, _>(failure@),
    }
}

/// The result of an event is the one that was owed.
pub open spec fn outcome_agrees(
    res: Result<bool, ClientCallError>,
    owed: Result<bool, FailureView>,
) -> bool {
    match res {
        Ok(finished) => owed == Ok::<_, FailureView>(finished),
        Err(error) => owed is Err && error@ == CallErrorView::Failure(owed->Err_0),
    }
}

/// An event that is taken over leaves the answer within its limit.
pub proof fn accepted_events_stay_within_limit(response: ResponseView, event: Option<JsonView>)
    ensures
        after_event(response, event).result is Ok ==> within_limit(
            after_event(response, event).response,
        ),
{
}

/// An event that ends the answer leaves nothing that its end would refuse.
pub proof fn ending_events_can_be_finished(response: ResponseView, event: Option<JsonView>)
    ensures
        after_event(response, event).result == Ok::<bool, FailureView>(true) ==> finished_response(
            after_event(response, event).response,
        ) is Ok,
{
}

/// The text of a snapshot wins over an addition in the same event.
pub proof fn snapshot_text_wins(response: ResponseView, event: Fields, content: Fields, text: Seq<char>)
    requires
        object_field(event, "content"@) == Ok::<_, FailureView>(Some(content)),
        text_field(content, "content"@) == Ok::<_, FailureView>(Some(text)),
        text_field(event, "role"@) != Ok::<_, FailureView>(Some("tool"@)),
        after_event_fields(response, event).result is Ok,
    ensures
        after_event_fields(response, event).response.text == text,
{
}

/// The reasoning of a snapshot wins over an addition in the same event.
pub proof fn snapshot_reasoning_wins(
    response: ResponseView,
    event: Fields,
    content: Fields,
    reasoning: Seq<char>,
)
    requires
        object_field(event, "content"@) == Ok::<_, FailureView>(Some(content)),
        text_field(content, "reasoning_content"@) == Ok::<_, FailureView>(Some(reasoning)),
        text_field(event, "role"@) != Ok::<_, FailureView>(Some("tool"@)),
        after_event_fields(response, event).result is Ok,
    ensures
        after_event_fields(response, event).response.reasoning == reasoning,
{
}

/// The field lists no calls: it is missing or null.
pub open spec fn lists_no_calls(field: Option<JsonView>) -> bool {
    field is None || field == Some(JsonView::Null)
}

proof fn snapshot_keeps_unlisted_calls(response: ResponseView, event: Fields)
    requires
        object_field(event, "content"@) matches Ok(Some(content)) ==> lists_no_calls(
            lookup(content, "tool_calls"@),
        ),
    ensures
        after_snapshot(response, event).response.calls == response.calls,
        !after_snapshot(response, event).calls,
{
}

proof fn additions_keep_calls(progress: Progress, event: Fields)
    requires
        lists_no_calls(lookup(event, "tool_calls"@)),
    ensures
        after_own_fields(after_delta(progress, event), event).response.calls
            == progress.response.calls,
{
    let delta = after_delta(progress, event);
    assert(delta.response.calls == progress.response.calls);
}

/// Calls that have been listed stay when an event lists none.
pub proof fn unlisted_calls_stay(response: ResponseView, event: Fields)
    requires
        lists_no_calls(lookup(event, "tool_calls"@)),
        object_field(event, "content"@) matches Ok(Some(content)) ==> lists_no_calls(
            lookup(content, "tool_calls"@),
        ),
    ensures
        after_event_fields(response, event).response.calls == response.calls,
{
    let named = ResponseView {
        uuid: match text_field(event, "uuid"@) {
            Ok(uuid) => uuid,
            Err(_) => None,
        },
        ..response
    };
    snapshot_keeps_unlisted_calls(response, event);
    snapshot_keeps_unlisted_calls(named, event);
    additions_keep_calls(after_snapshot(response, event), event);
    additions_keep_calls(after_snapshot(named, event), event);
    assert forall|start: ResponseView, ends: bool|
        start == response || start == named implies #[trigger] after_message_event(
        start,
        event,
        ends,
    ).response.calls == response.calls by {
        let progress = after_own_fields(after_delta(after_snapshot(start, event), event), event);
        assert(after_message_event(start, event, ends).response == progress.response);
    }
    assert(after_tool_event(response, event).response.calls == response.calls);
    assert(after_tool_event(named, event).response.calls == response.calls);
}

/// Absorbing a round loses nothing that it shows.
pub proof fn absorbing_keeps_results(combined: ResponseView, round: ResponseView)
    ensures
        absorbed(combined, round).results == combined.results + round.results,
        occurs_in(combined.text, absorbed(combined, round).text),
        occurs_in(round.text, absorbed(combined, round).text),
        occurs_in(combined.reasoning, absorbed(combined, round).reasoning),
        occurs_in(round.reasoning, absorbed(combined, round).reasoning),
{
    merge_keeps_both(combined.text, round.text);
    merge_keeps_both(combined.reasoning, round.reasoning);
}

/// The event reports a tool that has finished.
pub open spec fn is_tool_report(event: Fields) -> bool {
    lookup(event, "role"@) == Some(JsonView::Text("tool"@)) && lookup(event, "finished"@) == Some(
        JsonView::Bool(true),
    )
}

/// The text in a field of an object in a field, where both are there.
pub open spec fn inner_text(event: Fields, outer: Seq<char>, inner: Seq<char>) -> Option<Seq<char>> {
    match lookup(event, outer) {
        Some(JsonView::Object(object)) => match lookup(object, inner) {
            Some(JsonView::Text(text)) => Some(text),
            _ => None,
        },
        _ => None,
    }
}

/// A delta is appended as it is: every character of it, in order, after the text so far.
/// A snapshot takes the place of the text, and an event with neither leaves it alone.
pub proof fn deltas_are_appended_and_snapshots_replace(response: ResponseView, event: Fields)
    requires
        after_event(response, Some(JsonView::Object(event))).result is Ok,
        !is_tool_report(event),
    ensures
        ({
            let after = after_event(response, Some(JsonView::Object(event))).response;
            let snapshot = inner_text(event, "content"@, "content"@);
            let delta = inner_text(event, "content_delta"@, "content"@);
            &&& snapshot matches Some(text) ==> after.text == text
            &&& snapshot is None ==> (delta matches Some(text) ==> after.text == response.text + text)
            &&& snapshot is None && delta is None ==> after.text == response.text
        }),
{
}

/// The reasoning goes by the same rule; what the event itself adds to it comes last.
pub proof fn reasoning_is_appended_and_replaced(response: ResponseView, event: Fields)
    requires
        after_event(response, Some(JsonView::Object(event))).result is Ok,
        !is_tool_report(event),
    ensures
        ({
            let after = after_event(response, Some(JsonView::Object(event))).response;
            let snapshot = inner_text(event, "content"@, "reasoning_content"@);
            let delta = inner_text(event, "content_delta"@, "reasoning_content"@);
            let own = match lookup(event, "reasoning_content"@) {
                Some(JsonView::Text(text)) => Some(text),
                _ => None,
            };
            &&& snapshot matches Some(text) ==> after.reasoning == text
            &&& snapshot is None && delta is None && own is None ==> after.reasoning
                == response.reasoning
            &&& snapshot is None && own is None ==> (delta matches Some(text) ==> after.reasoning
                == response.reasoning + text)
            &&& snapshot is None && delta is None ==> (own matches Some(text) ==> after.reasoning
                == response.reasoning + text)
            &&& snapshot is None && delta is Some && own is Some ==> after.reasoning
                == response.reasoning + delta->0 + own->0
        }),
{
}

/// An answer after several events, as far as they are accepted.
pub open spec fn after_events(response: ResponseView, events: Seq<Fields>) -> Option<ResponseView>
    decreases events.len(),
{
    if events.len() == 0 {
        Some(response)
    } else {
        match after_events(response, events.drop_last()) {
            None => None,
            Some(so_far) => {
                let outcome = after_event(so_far, Some(JsonView::Object(events.last())));
                if outcome.result is Ok {
                    Some(outcome.response)
                } else {
                    None
                }
            },
        }
    }
}

/// However an answer is cut into deltas, its text is all of them, one after the other.
pub proof fn an_answer_is_its_deltas(
    response: ResponseView,
    events: Seq<Fields>,
    deltas: Seq<Seq<char>>,
)
    requires
        events.len() == deltas.len(),
        after_events(response, events) is Some,
        forall|i: int|
            0 <= i < events.len() ==> !is_tool_report(#[trigger] events[i]) && inner_text(
                events[i],
                "content"@,
                "content"@,
            ) is None && inner_text(events[i], "content_delta"@, "content"@) == Some(deltas[i]),
    ensures
        after_events(response, events)->0.text == response.text + deltas.flatten(),
    decreases events.len(),
{
    if events.len() == 0 {
        assert(deltas =~= Seq::empty());
        assert(response.text + deltas.flatten() =~= response.text);
    } else {
        let earlier = events.drop_last();
        assert forall|i: int| 0 <= i < earlier.len() implies !is_tool_report(#[trigger] earlier[i])
            && inner_text(earlier[i], "content"@, "content"@) is None && inner_text(
            earlier[i],
            "content_delta"@,
            "content"@,
        ) == Some(deltas.drop_last()[i]) by {
            assert(!is_tool_report(events[i]));
        }
        an_answer_is_its_deltas(response, earlier, deltas.drop_last());
        let so_far = after_events(response, earlier)->0;
        assert(!is_tool_report(events[events.len() - 1]));
        deltas_are_appended_and_snapshots_replace(so_far, events.last());
        assert(deltas =~= deltas.drop_last().push(deltas.last()));
        deltas.drop_last().lemma_flatten_push(deltas.last());
        assert(response.text + deltas.drop_last().flatten() + deltas.last() =~= response.text
            + deltas.flatten());
    }
}

/// What a finished tool shows joins what the tools have shown, and nothing else of the
/// answer changes. No other event changes what the tools have shown.
pub proof fn only_tool_reports_show(response: ResponseView, event: Fields)
    requires
        after_event(response, Some(JsonView::Object(event))).result is Ok,
    ensures
        ({
            let outcome = after_event(response, Some(JsonView::Object(event)));
            let after = outcome.response;
            &&& after.followups == response.followups
            &&& after.final_text == response.final_text
            &&& !is_tool_report(event) ==> after.results == response.results
            &&& is_tool_report(event) ==> {
                &&& after == (ResponseView { results: after.results, ..response })
                &&& outcome.result == Ok::<bool, FailureView>(false)
                &&& lookup(event, "render_info"@) matches Some(JsonView::Array(items))
                    ==> after.results == response.results + rendered_items(items)
                &&& lookup(event, "render_info"@) is None ==> after.results == response.results
            }
        }),
{
    reveal_strlit("tool");
    reveal_strlit("assistant");
    assert("tool"@.len() != "assistant"@.len());
    if is_tool_report(event) {
        assert(text_field(event, "role"@) == Ok::<_, FailureView>(Some("tool"@)));
        let none = Seq::<RenderedView>::empty();
        assert(response.results + none =~= response.results);
    }
}

/// An answer has the identifier of the assistant's events; those of others do not count.
/// It ends with the assistant's event that says so, and with no other.
pub proof fn the_assistant_names_and_ends_the_answer(response: ResponseView, event: Fields)
    requires
        after_event(response, Some(JsonView::Object(event))).result is Ok,
    ensures
        ({
            let outcome = after_event(response, Some(JsonView::Object(event)));
            let assistant = lookup(event, "role"@) == Some(JsonView::Text("assistant"@));
            &&& assistant ==> (lookup(event, "uuid"@) matches Some(JsonView::Text(uuid))
                ==> uuid.len() > 0 && outcome.response.uuid == Some(uuid))
            &&& !assistant || lookup(event, "uuid"@) is None ==> outcome.response.uuid
                == response.uuid
            &&& outcome.result == Ok::<bool, FailureView>(
                assistant && lookup(event, "finished"@) == Some(JsonView::Bool(true)),
            )
        }),
{
    reveal_strlit("tool");
    reveal_strlit("assistant");
    assert("tool"@.len() != "assistant"@.len());
}

/// Calls are those of the last list: a snapshot's where it lists any, else the event's own.
pub proof fn the_last_list_of_calls_stands(response: ResponseView, event: Fields)
    requires
        after_event(response, Some(JsonView::Object(event))).result is Ok,
        !is_tool_report(event),
    ensures
        ({
            let after = after_event(response, Some(JsonView::Object(event))).response;
            let own = lookup(event, "tool_calls"@);
            let inner = match lookup(event, "content"@) {
                Some(JsonView::Object(content)) => lookup(content, "tool_calls"@),
                _ => None,
            };
            &&& inner matches Some(JsonView::Array(items)) ==> listed_calls(inner->0) == Ok::<
                _,
                FailureView,
            >(after.calls)
            &&& lists_no_calls(inner) ==> (own matches Some(JsonView::Array(items))
                ==> listed_calls(own->0) == Ok::<_, FailureView>(after.calls))
            &&& lists_no_calls(inner) && lists_no_calls(own) ==> after.calls == response.calls
        }),
{
}

/// A plain delta of the assistant is accepted wherever the answer stays within its limit.
pub proof fn plain_deltas_are_accepted(
    response: ResponseView,
    event: Fields,
    delta: Fields,
    uuid: Seq<char>,
    text: Seq<char>,
)
    requires
        lookup(event, "role"@) == Some(JsonView::Text("assistant"@)),
        lookup(event, "uuid"@) == Some(JsonView::Text(uuid)),
        uuid.len() > 0,
        lookup(event, "finished"@) is None || lookup(event, "finished"@)->0 is Bool,
        lookup(event, "content"@) is None,
        lookup(event, "reasoning_content"@) is None,
        lookup(event, "tool_calls"@) is None,
        lookup(event, "content_delta"@) == Some(JsonView::Object(delta)),
        lookup(delta, "content"@) == Some(JsonView::Text(text)),
        lookup(delta, "reasoning_content"@) is None,
        response_size(
            ResponseView { uuid: Some(uuid), text: response.text + text, ..response },
        ) <= 8 * 1024 * 1024,
    ensures
        after_event(response, Some(JsonView::Object(event))).result is Ok,
{
    reveal_strlit("tool");
    reveal_strlit("assistant");
    assert("tool"@.len() != "assistant"@.len());
}

/// Events that say what they must not are refused: invalid JSON, anything but an object,
/// an empty identifier of the assistant, and fields of another type.
pub proof fn faulty_events_are_refused(response: ResponseView, event: Fields)
    ensures
        after_event(response, None).result is Err,
        lookup(event, "role"@) == Some(JsonView::Text("assistant"@)) && lookup(event, "uuid"@)
            == Some(JsonView::Text(Seq::empty())) ==> after_event(
            response,
            Some(JsonView::Object(event)),
        ).result is Err,
        lookup(event, "finished"@) is Some && !(lookup(event, "finished"@)->0 is Bool)
            ==> after_event(response, Some(JsonView::Object(event))).result is Err,
        lookup(event, "role"@) is Some && !(lookup(event, "role"@)->0 is Text) && !(lookup(
            event,
            "role"@,
        )->0 is Null) ==> after_event(response, Some(JsonView::Object(event))).result is Err,
        lookup(event, "uuid"@) is Some && !(lookup(event, "uuid"@)->0 is Text) && !(lookup(
            event,
            "uuid"@,
        )->0 is Null) ==> after_event(response, Some(JsonView::Object(event))).result is Err,
        lookup(event, "tool_calls"@) is Some && !(lookup(event, "tool_calls"@)->0 is Null)
            && !is_tool_report(event) && lookup(event, "content"@) is None && listed_calls(
            lookup(event, "tool_calls"@)->0,
        ) is Err ==> after_event(response, Some(JsonView::Object(event))).result is Err,
        !within_limit(after_event(response, Some(JsonView::Object(event))).response)
            ==> after_event(response, Some(JsonView::Object(event))).result is Err,
{
    assert(Seq::<char>::empty().len() == 0);
}

/// At its end an answer has its text without the white space around it as its final text,
/// and everything else as it was. Calls without an identifier cannot be handed on.
pub proof fn finishing_adds_the_final_text(response: ResponseView)
    ensures
        match finished_response(response) {
            Ok(finished) => finished.final_text == trimmed(response.text) && finished == (
            ResponseView { final_text: finished.final_text, ..response }),
            Err(_) => response.calls.len() > 0 && response.uuid is None,
        },
        finished_response(response) is Err <==> response.calls.len() > 0 && response.uuid is None,
{
}

/// After a round the calls are those of the round; its identifier and its final text stand
/// where it has them, and what it shows and follows up comes after what came before.
pub proof fn rounds_follow_each_other(combined: ResponseView, round: ResponseView)
    ensures
        ({
            let after = absorbed(combined, round);
            &&& after.calls == round.calls
            &&& round.uuid is Some ==> after.uuid == round.uuid
            &&& round.uuid is None ==> after.uuid == combined.uuid
            &&& round.final_text.len() > 0 ==> after.final_text == round.final_text
            &&& round.final_text.len() == 0 ==> after.final_text == combined.final_text
            &&& after.results == combined.results + round.results
            &&& after.followups == combined.followups + round.followups
        }),
{
}

/// The first round is taken over as it is.
pub proof fn the_first_round_is_taken_over(round: ResponseView)
    ensures
        absorbed(empty_response(), round) == round,
{
    let none = Seq::<char>::empty();
    assert(round.text.subrange(0, 0int + none.len()) =~= none);
    assert(round.reasoning.subrange(0, 0int + none.len()) =~= none);
    merge_keeps_the_fuller_text(none, round.text);
    merge_keeps_the_fuller_text(none, round.reasoning);
    assert(occurs_in(none, round.text));
    assert(occurs_in(none, round.reasoning));
    assert(round.final_text.len() == 0 ==> round.final_text =~= none);
    assert(absorbed(empty_response(), round) =~= round);
}

/// Every byte of an answer counts: of its text and reasoning, its identifier, its calls,
/// what it shows and what it follows up.
pub proof fn every_byte_counts(
    response: ResponseView,
    text: Seq<char>,
    call: ToolCallView,
    shown: RenderedView,
)
    ensures
        response_size(empty_response()) == 0,
        response_size(ResponseView { text: response.text + text, ..response }) == response_size(
            response,
        ) + encode_utf8(text).len(),
        response_size(ResponseView { reasoning: response.reasoning + text, ..response })
            == response_size(response) + encode_utf8(text).len(),
        response.uuid is None ==> response_size(ResponseView { uuid: Some(text), ..response })
            == response_size(response) + encode_utf8(text).len(),
        response_size(ResponseView { followups: response.followups.push(text), ..response })
            == response_size(response) + encode_utf8(text).len(),
        response_size(ResponseView { calls: response.calls.push(call), ..response })
            == response_size(response) + encode_utf8(call.id).len() + encode_utf8(call.name).len()
            + tree_size(JsonView::Object(call.arguments)),
        response_size(ResponseView { results: response.results.push(shown), ..response })
            == response_size(response) + encode_utf8(shown.markdown).len() + trees_size(
            shown.details,
        ),
{
    crate::encoding::encode_concat(response.text, text);
    crate::encoding::encode_concat(response.reasoning, text);
    assert(response.followups.push(text).drop_last() =~= response.followups);
    assert(response.calls.push(call).drop_last() =~= response.calls);
    assert(response.results.push(shown).drop_last() =~= response.results);
}

/// An event of the assistant that says nothing but whether it is the last is accepted, and
/// changes nothing; only calls without an identifier stop an answer from ending.
pub proof fn plain_endings_are_accepted(response: ResponseView, event: Fields, finished: bool)
    requires
        lookup(event, "role"@) == Some(JsonView::Text("assistant"@)),
        lookup(event, "uuid"@) is None,
        lookup(event, "finished"@) == Some(JsonView::Bool(finished)),
        lookup(event, "content"@) is None,
        lookup(event, "content_delta"@) is None,
        lookup(event, "reasoning_content"@) is None,
        lookup(event, "tool_calls"@) is None,
        response_size(response) <= 8 * 1024 * 1024,
    ensures
        ({
            let outcome = after_event(response, Some(JsonView::Object(event)));
            &&& outcome.response == response
            &&& !finished || response.calls.len() == 0 || response.uuid is Some ==> outcome.result
                == Ok::<bool, FailureView>(finished)
            &&& finished && response.calls.len() > 0 && response.uuid is None ==> outcome.result
                is Err
        }),
{
    reveal_strlit("tool");
    reveal_strlit("assistant");
    assert("tool"@.len() != "assistant"@.len());
}

/// A plain snapshot of the text is accepted wherever the answer stays within its limit, and
/// changes nothing but the text.
pub proof fn plain_snapshots_are_accepted(
    response: ResponseView,
    event: Fields,
    content: Fields,
    text: Seq<char>,
)
    requires
        lookup(event, "role"@) == Some(JsonView::Text("assistant"@)),
        lookup(event, "uuid"@) is None,
        lookup(event, "finished"@) is None,
        lookup(event, "content"@) == Some(JsonView::Object(content)),
        lookup(content, "content"@) == Some(JsonView::Text(text)),
        lookup(content, "reasoning_content"@) is None,
        lookup(content, "tool_calls"@) is None,
        lookup(event, "content_delta"@) is None,
        lookup(event, "reasoning_content"@) is None,
        lookup(event, "tool_calls"@) is None,
        response_size(ResponseView { text, ..response }) <= 8 * 1024 * 1024,
    ensures
        after_event(response, Some(JsonView::Object(event))) == (EventOutcome {
            response: ResponseView { text, ..response },
            result: Ok(false),
        }),
{
    reveal_strlit("tool");
    reveal_strlit("assistant");
    assert("tool"@.len() != "assistant"@.len());
}

/// What a finished tool reports is accepted wherever it is a list or nothing and the
/// answer stays within its limit.
pub proof fn tool_reports_are_accepted(response: ResponseView, event: Fields)
    requires
        is_tool_report(event),
        lookup(event, "uuid"@) is None || lookup(event, "uuid"@)->0 is Text,
    ensures
        ({
            let info = lookup(event, "render_info"@);
            let result = after_event(response, Some(JsonView::Object(event))).result;
            &&& info matches Some(JsonView::Array(items)) ==> response_size(
                ResponseView { results: response.results + rendered_items(items), ..response },
            ) <= 8 * 1024 * 1024 ==> result == Ok::<bool, FailureView>(false)
            &&& info is None && response_size(response) <= 8 * 1024 * 1024 ==> result == Ok::<
                bool,
                FailureView,
            >(false)
            &&& info matches Some(value) ==> !(value is Array) && !(value is Null) ==> result is Err
        }),
{
    reveal_strlit("tool");
    reveal_strlit("assistant");
    assert("tool"@.len() != "assistant"@.len());
    let none = Seq::<RenderedView>::empty();
    assert(response.results + none =~= response.results);
}

/// The details that a tool shows count one by one.
pub proof fn details_count_one_by_one(a: Seq<JsonView>, b: Seq<JsonView>, tree: JsonView)
    ensures
        trees_size(a + b) == trees_size(a) + trees_size(b),
        trees_size(seq![tree]) == tree_size(tree),
        trees_size(Seq::empty()) == 0,
    decreases b.len(),
{
    reveal_with_fuel(trees_size, 2);
    assert(seq![tree].drop_last() =~= Seq::empty());
    if b.len() == 0 {
        assert(a + b =~= a);
    } else {
        assert((a + b).drop_last() =~= a + b.drop_last());
        details_count_one_by_one(a, b.drop_last(), tree);
    }
}

} // verus!
