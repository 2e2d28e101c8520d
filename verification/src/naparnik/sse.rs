//! Strict bounded server-sent event streams.

use vstd::prelude::*;
use vstd::utf8::encode_utf8;

use crate::ascii::{CR, LF};
use crate::error::{
    caused_protocol_breach,
    limit_breach,
    protocol_breach,
    CallErrorView,
    FailureView,
};
use crate::error::{ClientCallError, ToolFailure, ToolFailureKind};
use crate::json_text::text_tree;
use crate::limits::{SSE_EVENT_MAX_BYTES, SSE_STREAM_MAX_BYTES};
use crate::naparnik::event_fields::protocol_tool_failure;
use crate::naparnik::response::{
    after_event,
    finished_response,
    response_size,
    ResponseView,
};
use crate::naparnik::response::{AssistantResponse, ResponseState};
use crate::strings::same_text;

verus! {

/// The UTF-8 encoding of the byte order mark.
pub open spec fn utf8_bom() -> Seq<u8> {
    seq![0xefu8, 0xbbu8, 0xbfu8]
}

/// What is known of the beginning of a stream: the bytes that may still turn out to be
/// a byte order mark, until that is decided.
#[verifier::ext_equal]
pub struct Opening {
    pub held: Seq<u8>,
    pub complete: bool,
}

/// The beginning after one more byte, and what is let through.
pub open spec fn strip_byte(opening: Opening, byte: u8) -> (Opening, Seq<u8>) {
    let held = opening.held.push(byte);
    if opening.complete {
        (opening, seq![byte])
    } else if held.len() < 3 && held == utf8_bom().take(held.len() as int) {
        (Opening { held, complete: false }, Seq::empty())
    } else if held == utf8_bom() {
        (Opening { held: Seq::empty(), complete: true }, Seq::empty())
    } else {
        (Opening { held: Seq::empty(), complete: true }, held)
    }
}

/// A run of bytes without the byte order mark that may open the stream.
pub open spec fn strip_bytes(opening: Opening, bytes: Seq<u8>) -> (Opening, Seq<u8>)
    decreases bytes.len(),
{
    if bytes.len() == 0 {
        (opening, Seq::empty())
    } else {
        let (before, out) = strip_bytes(opening, bytes.drop_last());
        let (after, more) = strip_byte(before, bytes.last());
        (after, out + more)
    }
}

/// Whether a carriage return is pending after one more byte, and what is let through.
pub open spec fn newline_byte(pending: bool, byte: u8) -> (bool, Seq<u8>) {
    let ended = if pending {
        seq![LF]
    } else {
        Seq::empty()
    };
    if byte == CR {
        (true, ended)
    } else if pending && byte == LF {
        (false, ended)
    } else {
        (false, ended.push(byte))
    }
}

/// A run of bytes with each line ending made a single line feed.
pub open spec fn newline_bytes(pending: bool, bytes: Seq<u8>) -> (bool, Seq<u8>)
    decreases bytes.len(),
{
    if bytes.len() == 0 {
        (pending, Seq::empty())
    } else {
        let (before, out) = newline_bytes(pending, bytes.drop_last());
        let (after, more) = newline_byte(before, bytes.last());
        (after, out + more)
    }
}

/// Where a stream stands in an event: at the start of a line or not, and how many bytes
/// its lines hold so far.
pub struct EventPlace {
    pub at_line_start: bool,
    pub bytes: nat,
}

/// The place after one more byte: an empty line ends the event.
pub open spec fn scan_byte(place: EventPlace, byte: u8) -> EventPlace {
    if byte != LF {
        EventPlace { at_line_start: false, bytes: place.bytes + 1 }
    } else if place.at_line_start {
        EventPlace { at_line_start: true, bytes: 0 }
    } else {
        EventPlace { at_line_start: true, bytes: place.bytes }
    }
}

/// The place after a run of bytes; `None` where an event grows over its limit.
pub open spec fn scan_bytes(place: EventPlace, bytes: Seq<u8>) -> Option<EventPlace>
    decreases bytes.len(),
{
    if bytes.len() == 0 {
        Some(place)
    } else {
        match scan_bytes(place, bytes.drop_last()) {
            None => None,
            Some(before) => {
                let after = scan_byte(before, bytes.last());
                if bytes.last() != LF && after.bytes > SSE_EVENT_MAX_BYTES {
                    None
                } else {
                    Some(after)
                }
            },
        }
    }
}

/// Where a stream stands.
pub struct StreamView {
    pub total: nat,
    pub opening: Opening,
    pub pending: bool,
    pub place: EventPlace,
    pub terminated: bool,
}

/// The start of a stream.
pub open spec fn stream_start() -> StreamView {
    StreamView {
        total: 0,
        opening: Opening { held: Seq::empty(), complete: false },
        pending: false,
        place: EventPlace { at_line_start: true, bytes: 0 },
        terminated: false,
    }
}

/// What comes of a read from the connection.
pub enum StreamItemView {
    Bytes(Seq<u8>),
    End,
    EventTooLarge,
    StreamTooLarge,
    Transport,
}

/// What a chunk lets through, before the event limit.
pub open spec fn chunk_output(stream: StreamView, chunk: Seq<u8>) -> Seq<u8> {
    newline_bytes(stream.pending, strip_bytes(stream.opening, chunk).1).1
}

/// The stream after a chunk; `None` where it ends the stream by a limit.
pub open spec fn after_chunk(stream: StreamView, chunk: Seq<u8>) -> Option<StreamView> {
    let (opening, stripped) = strip_bytes(stream.opening, chunk);
    let (pending, normalized) = newline_bytes(stream.pending, stripped);
    if stream.total + chunk.len() > SSE_STREAM_MAX_BYTES {
        None
    } else {
        match scan_bytes(stream.place, normalized) {
            None => None,
            Some(place) => Some(
                StreamView {
                    total: stream.total + chunk.len(),
                    opening,
                    pending,
                    place,
                    terminated: stream.terminated,
                },
            ),
        }
    }
}

/// What was held back when the connection ends.
pub open spec fn held_back(stream: StreamView) -> Seq<u8> {
    stream.opening.held + (if stream.pending {
        seq![LF]
    } else {
        Seq::empty()
    })
}

/// The stream after what was held back has followed at the end of the connection; `None`
/// where it ends the stream by a limit.
pub open spec fn after_end(stream: StreamView) -> Option<StreamView> {
    match scan_bytes(stream.place, held_back(stream)) {
        None => None,
        Some(place) => Some(
            StreamView {
                opening: Opening {
                    held: Seq::empty(),
                    complete: stream.opening.complete || stream.opening.held.len() > 0,
                },
                pending: false,
                place,
                ..stream
            },
        ),
    }
}

/// What is read from the connection.
#[derive(Clone, Copy)]
pub enum StreamInput<'a> {
    Chunk(&'a [u8]),
    Failed,
    Ended,
}

/// What the event parser gets.
#[derive(Debug)]
pub enum StreamItem {
    Bytes(Vec<u8>),
    End,
    EventTooLarge,
    StreamTooLarge,
    Transport,
}

impl View for StreamItem {
    type V = StreamItemView;

    open spec fn view(&self) -> StreamItemView {
        match self {
            StreamItem::Bytes(bytes) => StreamItemView::Bytes(bytes@),
            StreamItem::End => StreamItemView::End,
            StreamItem::EventTooLarge => StreamItemView::EventTooLarge,
            StreamItem::StreamTooLarge => StreamItemView::StreamTooLarge,
            StreamItem::Transport => StreamItemView::Transport,
        }
    }
}

/// Bounds a stream and evens out its line endings on their way to the event parser.
#[derive(Debug)]
pub struct BoundedSseStream {
    total_bytes: usize,
    event_bytes: usize,
    at_line_start: bool,
    bom_prefix: Vec<u8>,
    prefix_complete: bool,
    pending_cr: bool,
    terminated: bool,
}

impl View for BoundedSseStream {
    type V = StreamView;

    closed spec fn view(&self) -> StreamView {
        StreamView {
            total: self.total_bytes as nat,
            opening: Opening { held: self.bom_prefix@, complete: self.prefix_complete },
            pending: self.pending_cr,
            place: EventPlace {
                at_line_start: self.at_line_start,
                bytes: self.event_bytes as nat,
            },
            terminated: self.terminated,
        }
    }
}

impl BoundedSseStream {
    pub fn new() -> (res: Self)
        ensures
            res@ == stream_start(),
    {
        Self {
            total_bytes: 0,
            event_bytes: 0,
            at_line_start: true,
            bom_prefix: Vec::new(),
            prefix_complete: false,
            pending_cr: false,
            terminated: false,
        }
    }

    /// How many bytes have been read.
    pub fn total_bytes(&self) -> (res: usize)
        ensures
            res == self@.total,
    {
        self.total_bytes
    }

    /// Nothing more will be read.
    pub fn is_terminated(&self) -> (res: bool)
        ensures
            res == self@.terminated,
    {
        self.terminated
    }

    /// Takes what was read from the connection.
    pub fn accept(&mut self, input: StreamInput<'_>) -> (res: StreamItem)
        ensures
            old(self)@.terminated ==> res@ == StreamItemView::End && final(self)@.terminated,
            !old(self)@.terminated ==> match input {
                StreamInput::Failed => res@ == StreamItemView::Transport
                    && final(self)@.terminated,
                StreamInput::Chunk(chunk) => match after_chunk(old(self)@, chunk@) {
                    Some(stream) => final(self)@ == stream && res@ == StreamItemView::Bytes(
                        chunk_output(old(self)@, chunk@),
                    ),
                    None => final(self)@.terminated && res@ == (if old(self)@.total + chunk@.len()
                        > SSE_STREAM_MAX_BYTES {
                        StreamItemView::StreamTooLarge
                    } else {
                        StreamItemView::EventTooLarge
                    }),
                },
                StreamInput::Ended => if held_back(old(self)@).len() == 0 {
                    res@ == StreamItemView::End && final(self)@.terminated
                } else {
                    match after_end(old(self)@) {
                        Some(stream) => res@ == StreamItemView::Bytes(held_back(old(self)@))
                            && final(self)@ == stream,
                        None => res@ == StreamItemView::EventTooLarge && final(self)@.terminated,
                    }
                },
            },
    {
        if self.terminated {
            return StreamItem::End;
        }
        match input {
            StreamInput::Failed => {
                self.terminated = true;
                StreamItem::Transport
            },
            StreamInput::Chunk(chunk) => {
                let item: StreamItem = self.transform_chunk(chunk);
                match &item {
                    StreamItem::Bytes(_) => {},
                    _ => {
                        self.terminated = true;
                    },
                }
                item
            },
            StreamInput::Ended => {
                let item: StreamItem = self.flush_end();
                match &item {
                    StreamItem::Bytes(_) => {},
                    _ => {
                        self.terminated = true;
                    },
                }
                item
            },
        }
    }

    /// Lets a chunk through, within the limits. Where it goes over one, the place in the
    /// event is no longer followed.
    pub fn transform_chunk(&mut self, source: &[u8]) -> (res: StreamItem)
        ensures
            match after_chunk(old(self)@, source@) {
                Some(stream) => final(self)@ == stream && res@ == StreamItemView::Bytes(
                    chunk_output(old(self)@, source@),
                ),
                None => if old(self)@.total + source@.len() > SSE_STREAM_MAX_BYTES {
                    &&& res@ == StreamItemView::StreamTooLarge
                    &&& final(self)@ == (StreamView {
                        total: if old(self)@.total + source@.len() <= usize::MAX {
                            old(self)@.total + source@.len()
                        } else {
                            usize::MAX as nat
                        },
                        ..old(self)@
                    })
                } else {
                    let (opening, stripped) = strip_bytes(old(self)@.opening, source@);
                    &&& res@ == StreamItemView::EventTooLarge
                    &&& final(self)@ == (StreamView {
                        total: old(self)@.total + source@.len(),
                        opening,
                        pending: newline_bytes(old(self)@.pending, stripped).0,
                        place: final(self)@.place,
                        ..old(self)@
                    })
                },
            },
    {
        self.total_bytes = self.total_bytes.saturating_add(source.len());
        if self.total_bytes > SSE_STREAM_MAX_BYTES {
            return StreamItem::StreamTooLarge;
        }
        let without_bom: Vec<u8> = self.strip_initial_bom(source);
        let normalized: Vec<u8> = self.normalize_line_endings(without_bom.as_slice());
        if self.scan_event_bytes(normalized.as_slice()) {
            StreamItem::Bytes(normalized)
        } else {
            StreamItem::EventTooLarge
        }
    }

    /// Drops the byte order mark that a stream may begin with.
    pub fn strip_initial_bom(&mut self, source: &[u8]) -> (res: Vec<u8>)
        ensures
            ({
                let (opening, out) = strip_bytes(old(self)@.opening, source@);
                &&& final(self)@ == (StreamView { opening, ..old(self)@ })
                &&& res@ == out
            }),
    {
        let ghost opening: Opening = self@.opening;
        let mut output: Vec<u8> = Vec::new();
        let mut index: usize = 0;
        while index < source.len()
            invariant
                index <= source@.len(),
                self@ == (StreamView {
                    opening: strip_bytes(opening, source@.take(index as int)).0,
                    ..old(self)@
                }),
                output@ == strip_bytes(opening, source@.take(index as int)).1,
            decreases source@.len() - index,
        {
            let byte: u8 = source[index];
            assert(source@.take(index + 1).drop_last() =~= source@.take(index as int));
            if self.prefix_complete {
                output.push(byte);
                assert(output@ =~= strip_bytes(opening, source@.take(index + 1)).1);
            } else {
                self.bom_prefix.push(byte);
                let held: usize = self.bom_prefix.len();
                let like_bom: bool = begins_bom(&self.bom_prefix);
                assert(held == 3 ==> utf8_bom().take(3) =~= utf8_bom());
                if !(like_bom && held < 3) {
                    self.prefix_complete = true;
                    if !like_bom {
                        output.append(&mut self.bom_prefix);
                    } else {
                        self.bom_prefix.clear();
                    }
                    assert(self.bom_prefix@ =~= Seq::empty());
                }
                assert(output@ =~= strip_bytes(opening, source@.take(index + 1)).1);
            }
            index += 1;
        }
        assert(source@.take(source@.len() as int) =~= source@);
        output
    }

    /// Evens out line endings: each becomes one line feed. A carriage return is held back
    /// until it is known what follows.
    pub fn normalize_line_endings(&mut self, source: &[u8]) -> (res: Vec<u8>)
        ensures
            ({
                let (pending, out) = newline_bytes(old(self)@.pending, source@);
                &&& final(self)@ == (StreamView { pending, ..old(self)@ })
                &&& res@ == out
            }),
    {
        let ghost pending: bool = self@.pending;
        let mut output: Vec<u8> = Vec::new();
        let mut index: usize = 0;
        while index < source.len()
            invariant
                index <= source@.len(),
                self@ == (StreamView {
                    pending: newline_bytes(pending, source@.take(index as int)).0,
                    ..old(self)@
                }),
                output@ == newline_bytes(pending, source@.take(index as int)).1,
            decreases source@.len() - index,
        {
            let byte: u8 = source[index];
            let was_pending: bool = self.pending_cr;
            assert(source@.take(index + 1).drop_last() =~= source@.take(index as int));
            if was_pending {
                output.push(LF);
                self.pending_cr = false;
            }
            if byte == CR {
                self.pending_cr = true;
            } else if !(was_pending && byte == LF) {
                output.push(byte);
            }
            assert(output@ =~= newline_bytes(pending, source@.take(index + 1)).1);
            index += 1;
        }
        assert(source@.take(source@.len() as int) =~= source@);
        output
    }

    /// Follows the events; `false` where one grows over its limit.
    fn scan_event_bytes(&mut self, bytes: &[u8]) -> (res: bool)
        ensures
            res == (scan_bytes(old(self)@.place, bytes@) is Some),
            final(self)@ == (StreamView { place: final(self)@.place, ..old(self)@ }),
            res ==> final(self)@.place == scan_bytes(old(self)@.place, bytes@)->0,
    {
        let ghost place: EventPlace = self@.place;
        let mut index: usize = 0;
        while index < bytes.len()
            invariant
                index <= bytes@.len(),
                scan_bytes(place, bytes@.take(index as int)) is Some,
                self@ == (StreamView {
                    place: scan_bytes(place, bytes@.take(index as int))->0,
                    ..old(self)@
                }),
                place == old(self)@.place,
            decreases bytes@.len() - index,
        {
            let byte: u8 = bytes[index];
            assert(bytes@.take(index + 1).drop_last() =~= bytes@.take(index as int));
            if byte == LF {
                if self.at_line_start {
                    self.event_bytes = 0;
                } else {
                    self.at_line_start = true;
                }
            } else {
                self.at_line_start = false;
                self.event_bytes = self.event_bytes.saturating_add(1);
                if self.event_bytes > SSE_EVENT_MAX_BYTES {
                    proof {
                        scan_stays_refused(place, bytes@, index + 1);
                    }
                    return false;
                }
            }
            index += 1;
        }
        assert(bytes@.take(bytes@.len() as int) =~= bytes@);
        true
    }

    /// Lets through what was held back, at the end of the connection.
    pub fn flush_end(&mut self) -> (res: StreamItem)
        ensures
            if held_back(old(self)@).len() == 0 {
                res@ == StreamItemView::End && final(self)@ == old(self)@
            } else {
                match after_end(old(self)@) {
                    Some(stream) => res@ == StreamItemView::Bytes(held_back(old(self)@))
                        && final(self)@ == stream,
                    None => res@ == StreamItemView::EventTooLarge && held_back(final(self)@).len()
                        == 0,
                }
            },
    {
        let mut output: Vec<u8> = Vec::new();
        if self.bom_prefix.len() > 0 {
            self.prefix_complete = true;
            output.append(&mut self.bom_prefix);
        }
        if self.pending_cr {
            self.pending_cr = false;
            output.push(LF);
        }
        assert(output@ =~= held_back(old(self)@));
        assert(self.bom_prefix@ =~= Seq::empty());
        if output.len() == 0 {
            StreamItem::End
        } else if self.scan_event_bytes(output.as_slice()) {
            StreamItem::Bytes(output)
        } else {
            StreamItem::EventTooLarge
        }
    }
}

/// The byte order mark begins with these bytes.
fn begins_bom(bytes: &Vec<u8>) -> (res: bool)
    ensures
        res == (bytes@.len() <= 3 && bytes@ == utf8_bom().take(bytes@.len() as int)),
{
    let n: usize = bytes.len();
    let res: bool = n <= 3 && (n < 1 || bytes[0] == 0xef) && (n < 2 || bytes[1] == 0xbb) && (n < 3
        || bytes[2] == 0xbf);
    proof {
        if res {
            assert(bytes@ =~= utf8_bom().take(bytes@.len() as int));
        } else if n <= 3 {
            let bom = utf8_bom().take(n as int);
            if n >= 1 && bytes@[0] != 0xef {
                assert(bom[0] != bytes@[0]);
            } else if n >= 2 && bytes@[1] != 0xbb {
                assert(bom[1] != bytes@[1]);
            } else {
                assert(bom[2] != bytes@[2]);
            }
        }
    }
    res
}

/// Once an event is over its limit, the bytes that follow change nothing.
proof fn scan_stays_refused(place: EventPlace, bytes: Seq<u8>, count: int)
    requires
        0 <= count <= bytes.len(),
        scan_bytes(place, bytes.take(count)) is None,
    ensures
        scan_bytes(place, bytes) is None,
    decreases bytes.len(),
{
    if count == bytes.len() {
        assert(bytes.take(count) =~= bytes);
    } else {
        assert(bytes.drop_last().take(count) =~= bytes.take(count));
        scan_stays_refused(place, bytes.drop_last(), count);
    }
}

/// Why a stream could not be read as events.
#[derive(Clone, Copy, Debug, PartialEq, Eq, Structural)]
pub enum StreamFailure {
    EventTooLarge,
    StreamTooLarge,
    Transport,
    Utf8,
    Parser,
}

/// The failure that a stream failure is reported as.
pub open spec fn stream_breach(failure: StreamFailure) -> FailureView {
    match failure {
        StreamFailure::EventTooLarge => limit_breach("an SSE event exceeds the size limit"@),
        StreamFailure::StreamTooLarge => limit_breach("the SSE stream exceeds the size limit"@),
        StreamFailure::Transport => FailureView {
            kind: ToolFailureKind::UpstreamTransport,
            message: "the SSE stream could not be read"@,
            ambiguous: true,
            caused: true,
        },
        StreamFailure::Utf8 => caused_protocol_breach("the SSE stream contains invalid UTF-8"@),
        StreamFailure::Parser => caused_protocol_breach("the SSE stream is malformed"@),
    }
}

fn limit_tool_failure(message: &'static str) -> (res: ToolFailure)
    ensures
        res@ == limit_breach(message@),
{
    ToolFailure::new(ToolFailureKind::LimitExceeded, message, false)
}

/// Reports a stream failure.
pub fn map_stream_error(error: StreamFailure) -> (res: ClientCallError)
    ensures
        res@ == CallErrorView::Failure(stream_breach(error)),
{
    let failure: ToolFailure = match error {
        StreamFailure::EventTooLarge => limit_tool_failure("an SSE event exceeds the size limit"),
        StreamFailure::StreamTooLarge => limit_tool_failure(
            "the SSE stream exceeds the size limit",
        ),
        StreamFailure::Transport => ToolFailure::with_cause(
            ToolFailureKind::UpstreamTransport,
            "the SSE stream could not be read",
            true,
            error,
        ),
        StreamFailure::Utf8 => ToolFailure::with_cause(
            ToolFailureKind::UpstreamProtocol,
            "the SSE stream contains invalid UTF-8",
            false,
            error,
        ),
        StreamFailure::Parser => ToolFailure::with_cause(
            ToolFailureKind::UpstreamProtocol,
            "the SSE stream is malformed",
            false,
            error,
        ),
    };
    ClientCallError::Failure(failure)
}

/// What ended the wait for an event.
#[derive(Clone, Copy)]
pub enum NextEvent<'a> {
    Cancelled,
    DeadlinePassed,
    EventTimedOut,
    Data(&'a str),
    Failed(StreamFailure),
    Ended,
}

/// What is to be done after an event.
#[derive(Debug)]
pub enum StreamStep {
    Continue(ResponseState),
    Finished(AssistantResponse),
}

/// A timeout of an operation whose outcome stays open.
pub open spec fn open_timeout(message: Seq<char>) -> FailureView {
    FailureView { kind: ToolFailureKind::Timeout, message, ambiguous: true, caused: false }
}

/// What there is to know of a step.
pub enum StepView {
    Continue(ResponseView),
    Finished(ResponseView),
    Error(CallErrorView),
}

/// The view of a step's result.
pub open spec fn step_view(res: Result<StreamStep, ClientCallError>) -> StepView {
    match res {
        Ok(StreamStep::Continue(state)) => StepView::Continue(state@),
        Ok(StreamStep::Finished(response)) => StepView::Finished(response@),
        Err(error) => StepView::Error(error@),
    }
}

/// The stream ends with the answer as it is.
pub open spec fn finish_step(response: ResponseView) -> StepView {
    match finished_response(response) {
        Ok(finished) => StepView::Finished(finished),
        Err(failure) => StepView::Error(CallErrorView::Failure(failure)),
    }
}

/// What the data of an event does to an answer, when this many bytes have been read.
pub open spec fn data_step(response: ResponseView, stream_bytes: nat, data: Seq<char>) -> StepView {
    if encode_utf8(data).len() > SSE_EVENT_MAX_BYTES {
        StepView::Error(
            CallErrorView::Failure(limit_breach("an SSE event exceeds the size limit"@)),
        )
    } else if data == "[DONE]"@ {
        finish_step(response)
    } else {
        let outcome = after_event(response, text_tree(data));
        match outcome.result {
            Err(failure) => StepView::Error(CallErrorView::Failure(failure)),
            Ok(finished) => if stream_bytes + response_size(outcome.response)
                > SSE_STREAM_MAX_BYTES {
                StepView::Error(
                    CallErrorView::Failure(
                        limit_breach(
                            "the SSE stream and accumulated response exceed the size limit"@,
                        ),
                    ),
                )
            } else if finished {
                finish_step(outcome.response)
            } else {
                StepView::Continue(outcome.response)
            },
        }
    }
}

/// What the end of a wait does to an answer.
pub open spec fn event_step(response: ResponseView, stream_bytes: nat, next: NextEvent<'_>) -> StepView {
    match next {
        NextEvent::Cancelled => StepView::Error(CallErrorView::Cancelled),
        NextEvent::DeadlinePassed => StepView::Error(
            CallErrorView::Failure(
                open_timeout("the external operation exceeded its deadline while reading SSE"@),
            ),
        ),
        NextEvent::EventTimedOut => StepView::Error(
            CallErrorView::Failure(
                open_timeout("the service did not produce a complete SSE event in time"@),
            ),
        ),
        NextEvent::Data(data) => data_step(response, stream_bytes, data@),
        NextEvent::Failed(failure) => StepView::Error(
            CallErrorView::Failure(stream_breach(failure)),
        ),
        NextEvent::Ended => StepView::Error(
            CallErrorView::Failure(
                protocol_breach("the SSE stream ended without a terminal event"@),
            ),
        ),
    }
}

fn finish_state(state: ResponseState) -> (res: Result<StreamStep, ClientCallError>)
    ensures
        step_view(res) == finish_step(state@),
{
    match state.finish() {
        Ok(response) => Ok(StreamStep::Finished(response)),
        Err(error) => Err(error),
    }
}

/// Takes one step in reading an answer, when `stream_bytes` have been read.
pub fn read_step(state: ResponseState, stream_bytes: usize, next: NextEvent<'_>) -> (res: Result<
    StreamStep,
    ClientCallError,
>)
    ensures
        step_view(res) == event_step(state@, stream_bytes as nat, next),
{
    match next {
        NextEvent::Cancelled => Err(ClientCallError::Cancelled),
        NextEvent::DeadlinePassed => Err(
            ClientCallError::Failure(
                ToolFailure::new(
                    ToolFailureKind::Timeout,
                    "the external operation exceeded its deadline while reading SSE",
                    true,
                ),
            ),
        ),
        NextEvent::EventTimedOut => Err(
            ClientCallError::Failure(
                ToolFailure::new(
                    ToolFailureKind::Timeout,
                    "the service did not produce a complete SSE event in time",
                    true,
                ),
            ),
        ),
        NextEvent::Data(data) => {
            if data.as_bytes().len() > SSE_EVENT_MAX_BYTES {
                return Err(
                    ClientCallError::Failure(
                        limit_tool_failure("an SSE event exceeds the size limit"),
                    ),
                );
            }
            if same_text(data, "[DONE]") {
                return finish_state(state);
            }
            let mut state: ResponseState = state;
            match state.apply_json_event(data) {
                Err(error) => Err(error),
                Ok(finished) => {
                    if stream_bytes.saturating_add(state.buffered_bytes()) > SSE_STREAM_MAX_BYTES {
                        return Err(
                            ClientCallError::Failure(
                                limit_tool_failure(
                                    "the SSE stream and accumulated response exceed the size limit",
                                ),
                            ),
                        );
                    }
                    if finished {
                        finish_state(state)
                    } else {
                        Ok(StreamStep::Continue(state))
                    }
                },
            }
        },
        NextEvent::Failed(failure) => Err(map_stream_error(failure)),
        NextEvent::Ended => Err(
            ClientCallError::Failure(
                protocol_tool_failure("the SSE stream ended without a terminal event"),
            ),
        ),
    }
}

/// What comes of reading the data of these events, when so many bytes had been read at
/// each: the first step that does not go on is the last.
pub open spec fn answer_of(response: ResponseView, events: Seq<Seq<char>>, read: Seq<nat>) -> StepView
    decreases events.len(),
{
    if events.len() == 0 {
        StepView::Continue(response)
    } else {
        match answer_of(response, events.drop_last(), read.drop_last()) {
            StepView::Continue(so_far) => data_step(so_far, read.last(), events.last()),
            done => done,
        }
    }
}

/// The stream and the answer together went over their limit.
pub open spec fn is_over_limit(step: StepView) -> bool {
    step == StepView::Error(
        CallErrorView::Failure(
            limit_breach("the SSE stream and accumulated response exceed the size limit"@),
        ),
    )
}

/// An answer depends on the events alone, not on how many bytes each of them was read
/// with: whatever these are, it is the answer that comes when all the bytes count from
/// the start, unless that one is over the limit.
pub proof fn answers_do_not_depend_on_cutting(
    response: ResponseView,
    events: Seq<Seq<char>>,
    read: Seq<nat>,
    total: nat,
)
    requires
        read.len() == events.len(),
        forall|i: int| 0 <= i < read.len() ==> #[trigger] read[i] <= total,
    ensures
        ({
            let whole = answer_of(response, events, Seq::new(events.len(), |i: int| total));
            is_over_limit(whole) || answer_of(response, events, read) == whole
        }),
    decreases events.len(),
{
    if events.len() > 0 {
        let all = Seq::new(events.len(), |i: int| total);
        let earlier = events.drop_last();
        assert forall|i: int| 0 <= i < read.drop_last().len() implies #[trigger] read.drop_last()[i]
            <= total by {
            assert(read[i] <= total);
        }
        assert(read[read.len() - 1] <= total);
        answers_do_not_depend_on_cutting(response, earlier, read.drop_last(), total);
        assert(all.drop_last() =~= Seq::new(earlier.len(), |i: int| total));
    }
}

proof fn strip_join(opening: Opening, a: Seq<u8>, b: Seq<u8>)
    ensures
        ({
            let (middle, first) = strip_bytes(opening, a);
            let (last, second) = strip_bytes(middle, b);
            strip_bytes(opening, a + b) == (last, first + second)
        }),
    decreases b.len(),
{
    let (middle, first) = strip_bytes(opening, a);
    if b.len() == 0 {
        assert(a + b =~= a);
        assert(first + Seq::<u8>::empty() =~= first);
    } else {
        assert((a + b).drop_last() =~= a + b.drop_last());
        strip_join(opening, a, b.drop_last());
        let (before, out) = strip_bytes(middle, b.drop_last());
        let (after, more) = strip_byte(before, b.last());
        assert((first + out) + more =~= first + (out + more));
    }
}

/// Line endings are evened alike however the bytes are cut.
pub proof fn evened_pieces_join(pending: bool, a: Seq<u8>, b: Seq<u8>)
    ensures
        ({
            let (middle, first) = newline_bytes(pending, a);
            let (last, second) = newline_bytes(middle, b);
            newline_bytes(pending, a + b) == (last, first + second)
        }),
    decreases b.len(),
{
    let (middle, first) = newline_bytes(pending, a);
    if b.len() == 0 {
        assert(a + b =~= a);
        assert(first + Seq::<u8>::empty() =~= first);
    } else {
        assert((a + b).drop_last() =~= a + b.drop_last());
        evened_pieces_join(pending, a, b.drop_last());
        let (before, out) = newline_bytes(middle, b.drop_last());
        let (after, more) = newline_byte(before, b.last());
        assert((first + out) + more =~= first + (out + more));
    }
}

proof fn scan_join(place: EventPlace, a: Seq<u8>, b: Seq<u8>)
    ensures
        scan_bytes(place, a + b) == (match scan_bytes(place, a) {
            Some(middle) => scan_bytes(middle, b),
            None => None,
        }),
    decreases b.len(),
{
    if b.len() == 0 {
        assert(a + b =~= a);
    } else {
        assert((a + b).drop_last() =~= a + b.drop_last());
        scan_join(place, a, b.drop_last());
    }
}

/// How a stream is cut into chunks does not matter: two chunks do what their bytes in
/// one chunk do.
pub proof fn chunks_join(stream: StreamView, a: Seq<u8>, b: Seq<u8>)
    ensures
        match after_chunk(stream, a) {
            Some(middle) => after_chunk(stream, a + b) == after_chunk(middle, b) && chunk_output(
                stream,
                a + b,
            ) == chunk_output(stream, a) + chunk_output(middle, b),
            None => after_chunk(stream, a + b) is None,
        },
{
    let (opening, first) = strip_bytes(stream.opening, a);
    let (_, second) = strip_bytes(opening, b);
    strip_join(stream.opening, a, b);
    evened_pieces_join(stream.pending, first, second);
    let (pending, left) = newline_bytes(stream.pending, first);
    let (_, right) = newline_bytes(pending, second);
    scan_join(stream.place, left, right);
}

/// No carriage return is let through.
pub proof fn no_return_is_left(pending: bool, bytes: Seq<u8>)
    ensures
        forall|i: int|
            0 <= i < newline_bytes(pending, bytes).1.len() ==> #[trigger] newline_bytes(
                pending,
                bytes,
            ).1[i] != CR,
    decreases bytes.len(),
{
    if bytes.len() > 0 {
        no_return_is_left(pending, bytes.drop_last());
        let (before, out) = newline_bytes(pending, bytes.drop_last());
        let (_, more) = newline_byte(before, bytes.last());
        assert forall|i: int| 0 <= i < (out + more).len() implies #[trigger] (out + more)[i] != CR by {
            if i < out.len() {
                assert((out + more)[i] == newline_bytes(pending, bytes.drop_last()).1[i]);
            } else {
                assert((out + more)[i] == more[i - out.len()]);
            }
        }
    }
}

/// The stream after several chunks; `None` where one of them ends it by a limit.
pub open spec fn after_chunks(stream: StreamView, chunks: Seq<Seq<u8>>) -> Option<StreamView>
    decreases chunks.len(),
{
    if chunks.len() == 0 {
        Some(stream)
    } else {
        match after_chunks(stream, chunks.drop_last()) {
            None => None,
            Some(middle) => after_chunk(middle, chunks.last()),
        }
    }
}

/// What several chunks let through.
pub open spec fn chunks_output(stream: StreamView, chunks: Seq<Seq<u8>>) -> Seq<u8>
    decreases chunks.len(),
{
    if chunks.len() == 0 {
        Seq::empty()
    } else {
        match after_chunks(stream, chunks.drop_last()) {
            None => chunks_output(stream, chunks.drop_last()),
            Some(middle) => chunks_output(stream, chunks.drop_last()) + chunk_output(
                middle,
                chunks.last(),
            ),
        }
    }
}

/// The bytes of several chunks.
pub open spec fn joined(chunks: Seq<Seq<u8>>) -> Seq<u8>
    decreases chunks.len(),
{
    if chunks.len() == 0 {
        Seq::empty()
    } else {
        joined(chunks.drop_last()) + chunks.last()
    }
}

/// A stream that has read some bytes goes on, within its limits.
pub open spec fn goes_on(stream: StreamView) -> bool {
    !stream.terminated && stream.total <= SSE_STREAM_MAX_BYTES
}

/// Any number of chunks do what their bytes in one chunk do.
pub proof fn any_chunks_join(stream: StreamView, chunks: Seq<Seq<u8>>)
    requires
        goes_on(stream),
    ensures
        after_chunks(stream, chunks) == after_chunk(stream, joined(chunks)),
        after_chunks(stream, chunks) is Some ==> chunks_output(stream, chunks) == chunk_output(
            stream,
            joined(chunks),
        ),
    decreases chunks.len(),
{
    if chunks.len() == 0 {
        let none = Seq::<u8>::empty();
        assert(strip_bytes(stream.opening, none) == (stream.opening, none));
        assert(newline_bytes(stream.pending, none) == (stream.pending, none));
        assert(scan_bytes(stream.place, none) == Some(stream.place));
    } else {
        any_chunks_join(stream, chunks.drop_last());
        chunks_join(stream, joined(chunks.drop_last()), chunks.last());
    }
}

/// How a stream is cut does not matter: two streams that deliver the same bytes end alike
/// by a limit, or let the same through and stand alike.
pub proof fn cutting_does_not_matter(stream: StreamView, a: Seq<Seq<u8>>, b: Seq<Seq<u8>>)
    requires
        goes_on(stream),
        joined(a) == joined(b),
    ensures
        after_chunks(stream, a) == after_chunks(stream, b),
        after_chunks(stream, a) is Some ==> chunks_output(stream, a) == chunks_output(stream, b),
{
    any_chunks_join(stream, a);
    any_chunks_join(stream, b);
}

/// The bytes without one byte order mark that they begin with.
pub open spec fn without_mark(bytes: Seq<u8>) -> Seq<u8> {
    if bytes.len() >= 3 && bytes.take(3) == utf8_bom() {
        bytes.skip(3)
    } else {
        bytes
    }
}

/// The bytes with each carriage return, and each that a line feed follows together with
/// it, made a line feed.
pub open spec fn evened(bytes: Seq<u8>) -> Seq<u8>
    decreases bytes.len(),
{
    if bytes.len() == 0 {
        Seq::empty()
    } else if bytes[0] != CR {
        seq![bytes[0]] + evened(bytes.skip(1))
    } else if bytes.len() >= 2 && bytes[1] == LF {
        seq![LF] + evened(bytes.skip(2))
    } else {
        seq![LF] + evened(bytes.skip(1))
    }
}

proof fn evened_from_the_front(pending: bool, bytes: Seq<u8>)
    ensures
        with_pending(newline_bytes(pending, bytes)) == (if !pending {
            evened(bytes)
        } else if bytes.len() > 0 && bytes[0] == LF {
            seq![LF] + evened(bytes.skip(1))
        } else {
            seq![LF] + evened(bytes)
        }),
    decreases bytes.len(),
{
    let none = Seq::<u8>::empty();
    if bytes.len() == 0 {
        assert(with_pending(newline_bytes(pending, bytes)) =~= (if pending {
            seq![LF]
        } else {
            none
        }));
        assert(seq![LF] + none =~= seq![LF]);
    } else {
        let first = bytes.take(1);
        let rest = bytes.skip(1);
        assert(first + rest =~= bytes);
        assert(first.drop_last() =~= none);
        assert(first.last() == bytes[0]);
        evened_pieces_join(pending, first, rest);
        let (middle, out) = newline_bytes(pending, first);
        assert(newline_bytes(pending, none) == (pending, none));
        assert(none + newline_byte(pending, bytes[0]).1 =~= newline_byte(pending, bytes[0]).1);
        assert((middle, out) == newline_byte(pending, bytes[0]));
        evened_from_the_front(middle, rest);
        let later = with_pending(newline_bytes(middle, rest));
        assert(with_pending(newline_bytes(pending, bytes)) =~= out + later);
        if bytes[0] == CR && rest.len() > 0 && rest[0] == LF {
            assert(rest.skip(1) =~= bytes.skip(2));
        }
        assert(none + later =~= later);
        assert(seq![LF].push(bytes[0]) =~= seq![LF] + seq![bytes[0]]);
        assert(none.push(bytes[0]) =~= seq![bytes[0]]);
        assert(seq![LF] + seq![bytes[0]] + evened(rest) =~= seq![LF] + (seq![bytes[0]] + evened(rest)));
    }
}

/// A whole stream, however it is cut, lets through its bytes without one leading byte
/// order mark and with every line ending evened, once what was held back has followed at
/// its end; then nothing is held back any more.
pub proof fn whole_streams_are_evened(chunks: Seq<Seq<u8>>)
    requires
        after_chunks(stream_start(), chunks) is Some,
    ensures
        ({
            let stream = after_chunks(stream_start(), chunks)->0;
            &&& chunks_output(stream_start(), chunks) + held_back(stream) == evened(
                without_mark(joined(chunks)),
            )
            &&& after_end(stream) matches Some(ended) ==> held_back(ended).len() == 0
        }),
{
    let bytes = joined(chunks);
    any_chunks_join(stream_start(), chunks);
    only_a_leading_mark_is_dropped(bytes);
    let (opening, stripped) = strip_bytes(stream_start().opening, bytes);
    let none = Seq::<u8>::empty();
    evened_from_the_front(false, stripped);
    let (pending, out) = newline_bytes(false, stripped);
    let stream = after_chunks(stream_start(), chunks)->0;
    if opening.complete {
        assert(held_back(stream) =~= (if pending {
            seq![LF]
        } else {
            none
        }));
        assert(out + held_back(stream) =~= with_pending((pending, out)));
    } else {
        assert(out =~= none);
        assert(held_back(stream) =~= bytes);
        assert forall|i: int| 0 <= i < bytes.len() implies #[trigger] bytes[i] != CR && bytes[i]
            != LF by {
            assert(bytes[i] == utf8_bom()[i]);
        }
        evened_lines_stay(bytes);
        assert(out + held_back(stream) =~= bytes);
    }
}

proof fn evened_lines_stay(bytes: Seq<u8>)
    requires
        is_line(bytes),
    ensures
        evened(bytes) == bytes,
    decreases bytes.len(),
{
    if bytes.len() == 0 {
        assert(bytes =~= Seq::empty());
    } else {
        assert(bytes[0] != CR);
        assert forall|i: int| 0 <= i < bytes.skip(1).len() implies #[trigger] bytes.skip(1)[i] != LF
            && bytes.skip(1)[i] != CR by {
            assert(bytes[i + 1] != LF);
        }
        evened_lines_stay(bytes.skip(1));
        assert(seq![bytes[0]] + bytes.skip(1) =~= bytes);
    }
}

proof fn scanned_events_stay_within_limit(place: EventPlace, bytes: Seq<u8>)
    requires
        place.bytes <= SSE_EVENT_MAX_BYTES,
    ensures
        scan_bytes(place, bytes) matches Some(after) ==> after.bytes <= SSE_EVENT_MAX_BYTES,
    decreases bytes.len(),
{
    if bytes.len() > 0 {
        scanned_events_stay_within_limit(place, bytes.drop_last());
    }
}

/// A stream that goes on has read no more than its limit, and its event holds no more
/// than that of an event.
pub proof fn streams_stay_within_limits(stream: StreamView, chunk: Seq<u8>)
    requires
        stream.place.bytes <= SSE_EVENT_MAX_BYTES,
    ensures
        after_chunk(stream, chunk) matches Some(next) ==> next.total <= SSE_STREAM_MAX_BYTES
            && next.place.bytes <= SSE_EVENT_MAX_BYTES,
{
    scanned_events_stay_within_limit(stream.place, chunk_output(stream, chunk));
}

/// What a stream lets through of its first bytes: all but a leading byte order mark,
/// or the beginning of one.
pub proof fn only_a_leading_mark_is_dropped(bytes: Seq<u8>)
    ensures
        strip_bytes(stream_start().opening, bytes).1 == (if bytes.len() < 3 && bytes
            == utf8_bom().take(bytes.len() as int) {
            Seq::empty()
        } else if bytes.len() >= 3 && bytes.take(3) == utf8_bom() {
            bytes.skip(3)
        } else {
            bytes
        }),
        strip_bytes(stream_start().opening, bytes).0 == (if bytes.len() < 3 && bytes
            == utf8_bom().take(bytes.len() as int) {
            Opening { held: bytes, complete: false }
        } else {
            Opening { held: Seq::empty(), complete: true }
        }),
    decreases bytes.len(),
{
    if bytes.len() == 0 {
        assert(bytes =~= Seq::empty());
        assert(utf8_bom().take(0) =~= Seq::empty());
    } else {
        let init = bytes.drop_last();
        only_a_leading_mark_is_dropped(init);
        let (before, out) = strip_bytes(stream_start().opening, init);
        let n = init.len() as int;
        assert(init.push(bytes.last()) =~= bytes);
        if before.complete {
            if n >= 3 {
                assert(bytes.take(3) =~= init.take(3));
                assert(init.take(3) == utf8_bom() ==> init.skip(3) + seq![bytes.last()] =~= bytes.skip(
                    3,
                ));
            } else {
                assert(init != utf8_bom().take(n));
                assert(exists|k: int| 0 <= k < n && init[k] != utf8_bom().take(n)[k]) by {
                    if forall|k: int| 0 <= k < n ==> init[k] == utf8_bom().take(n)[k] {
                        assert(init =~= utf8_bom().take(n));
                    }
                }
                let k = choose|k: int| 0 <= k < n && init[k] != utf8_bom().take(n)[k];
                assert(bytes[k] != utf8_bom()[k]);
                if bytes.len() < 3 {
                    assert(bytes[k] != utf8_bom().take(bytes.len() as int)[k]);
                } else {
                    assert(bytes.take(3)[k] != utf8_bom()[k]);
                }
            }
            assert(init + seq![bytes.last()] =~= bytes);
        } else {
            assert(bytes.len() == 3 ==> bytes.take(3) =~= bytes);
            assert(bytes.len() == 3 ==> bytes.skip(3) =~= Seq::empty());
            assert(Seq::<u8>::empty() + bytes =~= bytes);
        }
    }
}

/// Every line, each followed by `ending`.
pub open spec fn lines_with(lines: Seq<Seq<u8>>, ending: Seq<u8>) -> Seq<u8>
    decreases lines.len(),
{
    if lines.len() == 0 {
        Seq::empty()
    } else {
        lines_with(lines.drop_last(), ending) + lines.last() + ending
    }
}

/// The bytes hold no line ending.
pub open spec fn is_line(bytes: Seq<u8>) -> bool {
    forall|i: int| 0 <= i < bytes.len() ==> #[trigger] bytes[i] != LF && bytes[i] != CR
}

/// What has been let through, with the line feed that a pending carriage return owes.
pub open spec fn with_pending(state: (bool, Seq<u8>)) -> Seq<u8> {
    if state.0 {
        state.1.push(LF)
    } else {
        state.1
    }
}

proof fn line_passes(line: Seq<u8>)
    requires
        is_line(line),
    ensures
        newline_bytes(false, line) == (false, line),
    decreases line.len(),
{
    if line.len() > 0 {
        line_passes(line.drop_last());
        assert(newline_bytes(false, line).1 =~= line);
    } else {
        assert(line =~= Seq::empty());
    }
}

proof fn line_passes_after_return(line: Seq<u8>)
    requires
        is_line(line),
    ensures
        newline_bytes(true, line) == (if line.len() == 0 {
            (true, Seq::empty())
        } else {
            (false, seq![LF] + line)
        }),
    decreases line.len(),
{
    if line.len() > 0 {
        line_passes_after_return(line.drop_last());
        assert(line.drop_last().push(line.last()) =~= line);
        assert(newline_bytes(true, line).1 =~= seq![LF] + line);
        assert(newline_bytes(true, line) == (false, seq![LF] + line));
    }
}

proof fn ending_passes(pending: bool, ending: Seq<u8>)
    requires
        ending == seq![LF] || ending == seq![CR] || ending == seq![CR, LF],
        pending ==> ending == seq![CR],
    ensures
        newline_bytes(pending, ending) == (if ending == seq![CR] {
            (
                true,
                if pending {
                    seq![LF]
                } else {
                    Seq::empty()
                },
            )
        } else {
            (false, seq![LF])
        }),
{
    assert(seq![CR] != seq![LF]) by {
        assert(seq![CR][0] != seq![LF][0]);
    }
    assert(seq![CR, LF].len() != seq![CR].len());
    let empty = Seq::<u8>::empty();
    assert(ending.len() == 1 ==> ending.drop_last() =~= empty);
    assert(newline_bytes(pending, empty) == (pending, empty));
    if ending == seq![CR, LF] {
        assert(ending.drop_last() =~= seq![CR]);
        assert(seq![CR].drop_last() =~= empty);
        assert(newline_bytes(false, seq![CR]).1 =~= empty);
        assert(newline_bytes(false, seq![CR]) == (true, empty));
    }
    assert(newline_bytes(pending, ending).1 =~= (if ending == seq![CR] && !pending {
        empty
    } else {
        seq![LF]
    }));
}

/// Lines may end in a line feed, in a carriage return, or in both in this order: what
/// is let through is the same.
pub proof fn line_endings_are_evened(lines: Seq<Seq<u8>>, ending: Seq<u8>)
    requires
        forall|i: int| 0 <= i < lines.len() ==> is_line(#[trigger] lines[i]),
        ending == seq![LF] || ending == seq![CR] || ending == seq![CR, LF],
    ensures
        with_pending(newline_bytes(false, lines_with(lines, ending))) == lines_with(
            lines,
            seq![LF],
        ),
        newline_bytes(false, lines_with(lines, ending)).0 == (lines.len() > 0 && ending
            == seq![CR]),
    decreases lines.len(),
{
    if lines.len() > 0 {
        let init = lines.drop_last();
        let line = lines.last();
        line_endings_are_evened(init, ending);
        let whole = lines_with(init, ending);
        let (pending, out) = newline_bytes(false, whole);
        evened_pieces_join(false, whole, line);
        line_passes(line);
        line_passes_after_return(line);
        let (now, so_far) = newline_bytes(false, whole + line);
        let target = lines_with(init, seq![LF]) + line;
        assert(with_pending((now, so_far)) =~= target);
        evened_pieces_join(false, whole + line, ending);
        ending_passes(now, ending);
        assert(target + seq![LF] =~= target.push(LF));
        assert(with_pending(newline_bytes(false, whole + line + ending)) =~= target + seq![LF]);
    }
}

/// An event goes into the answer: it ends the answer where it says so, and else the answer
/// goes on with it. `[DONE]` ends the answer as it stands.
pub proof fn events_go_into_the_answer(response: ResponseView, read: nat, data: &str)
    requires
        encode_utf8(data@).len() <= 1024 * 1024,
    ensures
        ({
            let step = event_step(response, read, NextEvent::Data(data));
            let outcome = after_event(response, text_tree(data@));
            let fits = read + response_size(outcome.response) <= 8 * 1024 * 1024;
            &&& data@ == "[DONE]"@ ==> step == (match finished_response(response) {
                Ok(finished) => StepView::Finished(finished),
                Err(failure) => StepView::Error(CallErrorView::Failure(failure)),
            })
            &&& data@ != "[DONE]"@ && outcome.result == Ok::<bool, FailureView>(false) && fits
                ==> step == StepView::Continue(outcome.response)
            &&& data@ != "[DONE]"@ && outcome.result == Ok::<bool, FailureView>(true) && fits ==> (
            step matches StepView::Finished(finished) ==> finished == (ResponseView {
                final_text: finished.final_text,
                ..outcome.response
            }))
            &&& data@ != "[DONE]"@ && outcome.result == Ok::<bool, FailureView>(true) && fits
                ==> step is Finished
            &&& data@ != "[DONE]"@ ==> (outcome.result matches Err(failure) ==> step
                == StepView::Error(CallErrorView::Failure(failure)))
            &&& data@ != "[DONE]"@ && outcome.result is Ok && !fits ==> is_over_limit(step)
        }),
{
    crate::naparnik::response::ending_events_can_be_finished(response, text_tree(data@));
}

/// Nothing but an event goes into an answer: a cancelled wait ends it as cancelled, a wait
/// that takes too long as timed out and of open outcome, and a stream that ends before the
/// answer does breaks the protocol.
pub proof fn answers_end_with_an_event(response: ResponseView, read: nat)
    ensures
        event_step(response, read, NextEvent::Cancelled) == StepView::Error(
            CallErrorView::Cancelled,
        ),
        event_step(response, read, NextEvent::DeadlinePassed) matches StepView::Error(
            CallErrorView::Failure(failure),
        ) && failure.kind == ToolFailureKind::Timeout && failure.ambiguous,
        event_step(response, read, NextEvent::EventTimedOut) matches StepView::Error(
            CallErrorView::Failure(failure),
        ) && failure.kind == ToolFailureKind::Timeout && failure.ambiguous,
        event_step(response, read, NextEvent::Ended) matches StepView::Error(
            CallErrorView::Failure(failure),
        ) && failure.kind == ToolFailureKind::UpstreamProtocol,
{
}

/// Too much is a breach of a limit, a connection that breaks leaves the outcome open, and
/// what cannot be read breaks the protocol.
pub proof fn stream_failures_are_told_apart(failure: StreamFailure)
    ensures
        stream_breach(failure).kind == (match failure {
            StreamFailure::EventTooLarge | StreamFailure::StreamTooLarge =>
                ToolFailureKind::LimitExceeded,
            StreamFailure::Transport => ToolFailureKind::UpstreamTransport,
            StreamFailure::Utf8 | StreamFailure::Parser => ToolFailureKind::UpstreamProtocol,
        }),
        stream_breach(failure).ambiguous == (failure is Transport),
{
}

/// The bytes of a line count toward its event, up to one megabyte.
pub proof fn line_bytes_are_counted(place: EventPlace, line: Seq<u8>)
    requires
        place.bytes <= 1024 * 1024,
        forall|i: int| 0 <= i < line.len() ==> #[trigger] line[i] != LF,
    ensures
        match scan_bytes(place, line) {
            Some(after) => after.bytes == place.bytes + line.len() <= 1024 * 1024
                && after.at_line_start == (line.len() == 0 && place.at_line_start),
            None => place.bytes + line.len() > 1024 * 1024,
        },
    decreases line.len(),
{
    if line.len() > 0 {
        let init = line.drop_last();
        assert forall|i: int| 0 <= i < init.len() implies #[trigger] init[i] != LF by {
            assert(line[i] != LF);
        }
        line_bytes_are_counted(place, init);
        assert(line[line.len() - 1] != LF);
    }
}

/// A line feed counts for nothing; two of them end an event and begin the count anew.
pub proof fn an_empty_line_ends_an_event(place: EventPlace)
    ensures
        scan_bytes(place, seq![LF]) matches Some(after) && after.at_line_start && (
        !place.at_line_start ==> after.bytes == place.bytes),
        scan_bytes(place, seq![LF, LF]) == Some(EventPlace { at_line_start: true, bytes: 0 }),
{
    reveal_with_fuel(scan_bytes, 3);
    assert(seq![LF].drop_last() =~= Seq::empty());
    assert(seq![LF, LF].drop_last() =~= seq![LF]);
}

/// A wait that takes too long has no lower cause, and leaves open whether the service has
/// acted.
pub proof fn timeouts_leave_the_outcome_open(message: Seq<char>)
    ensures
        open_timeout(message).kind == ToolFailureKind::Timeout,
        open_timeout(message).message == message,
        open_timeout(message).ambiguous,
        !open_timeout(message).caused,
{
}

} // verus!
