//! Bounded JSON-RPC message framing.

use rmcp::model::ClientJsonRpcMessage;
use rmcp::transport::async_rw::{JsonRpcMessageCodec, JsonRpcMessageCodecError};
use tokio_util::bytes::BytesMut;
use tokio_util::codec::Decoder;
use vstd::prelude::*;

use crate::ascii::{CR, LF};
use crate::error::protocol_code;
use crate::error::{McpError, ProtocolFailure, ProtocolFailureKind};
use crate::json_text::bytes_tree;
use crate::limits::MCP_FRAME_MAX_BYTES;
use crate::mcp::request_id::{
    complete_frame_protocol_error,
    extract_safe_request_id,
    malformed_tool_call_id,
    RequestId,
};
use crate::mcp::request_id::{malformed_call, refused_frame, safe_request_id, RequestIdView};

verus! {

pub const MAX_INBOUND_MESSAGE_BYTES: usize = MCP_FRAME_MAX_BYTES;

pub const MAX_OUTBOUND_MESSAGE_BYTES: usize = MCP_FRAME_MAX_BYTES;

/// The line without the carriage return that may end it.
pub open spec fn without_return(line: Seq<u8>) -> Seq<u8> {
    if line.len() > 0 && line.last() == CR {
        line.drop_last()
    } else {
        line
    }
}

/// Where the first line feed stands; the length of the bytes where there is none.
pub open spec fn line_feed_at(bytes: Seq<u8>) -> int
    decreases bytes.len(),
{
    if bytes.len() == 0 || bytes[0] == LF {
        0
    } else {
        1 + line_feed_at(bytes.drop_first())
    }
}

/// What has been kept of a line.
#[verifier::ext_equal]
pub struct LineView {
    pub kept: Seq<u8>,
    pub oversized: bool,
}

/// A line of which nothing has come yet.
pub open spec fn line_start() -> LineView {
    LineView { kept: Seq::empty(), oversized: false }
}

/// A line that goes on: no more than `max` bytes of it are kept.
pub open spec fn line_grown(line: LineView, max: nat, bytes: Seq<u8>) -> LineView {
    if line.oversized {
        line
    } else if line.kept.len() + bytes.len() <= max {
        LineView { kept: line.kept + bytes, oversized: false }
    } else if line.kept.len() <= max {
        LineView { kept: line.kept + bytes.take(max - line.kept.len()), oversized: true }
    } else {
        LineView { kept: line.kept, oversized: bytes.len() > 0 }
    }
}

/// A frame that was read.
#[derive(Debug)]
pub enum FrameRead {
    Complete(Vec<u8>),
    Oversized(Vec<u8>),
    Eof,
}

/// The content of a [`FrameRead`].
pub enum FrameView {
    Complete(Seq<u8>),
    Oversized(Seq<u8>),
    Eof,
}

impl View for FrameRead {
    type V = FrameView;

    open spec fn view(&self) -> FrameView {
        match self {
            FrameRead::Complete(bytes) => FrameView::Complete(bytes@),
            FrameRead::Oversized(bytes) => FrameView::Oversized(bytes@),
            FrameRead::Eof => FrameView::Eof,
        }
    }
}

/// The frame that a line makes.
pub open spec fn line_frame(line: LineView) -> FrameView {
    if line.oversized {
        FrameView::Oversized(line.kept)
    } else {
        FrameView::Complete(without_return(line.kept))
    }
}

/// Gathers the bytes of a frame.
#[derive(Debug)]
pub struct BoundedFrameReader {
    buffer: Vec<u8>,
    oversized: bool,
    max_length: usize,
}

impl View for BoundedFrameReader {
    type V = LineView;

    closed spec fn view(&self) -> LineView {
        LineView { kept: self.buffer@, oversized: self.oversized }
    }
}

impl BoundedFrameReader {
    /// How many bytes a frame may have.
    pub closed spec fn limit(self) -> nat {
        self.max_length as nat
    }

    pub fn new(max_length: usize) -> (res: Self)
        ensures
            res@ == line_start(),
            res.limit() == max_length,
    {
        Self { buffer: Vec::new(), oversized: false, max_length }
    }

    /// How many bytes a frame may have.
    pub fn max_length(&self) -> (res: usize)
        ensures
            res == self.limit(),
    {
        self.max_length
    }

    /// Takes what is available of the input; tells how much of it was used, and the
    /// frame that it completes. Nothing available is the end of the input.
    pub fn accept(&mut self, available: &[u8]) -> (res: (usize, Option<FrameRead>))
        ensures
            final(self).limit() == old(self).limit(),
            ({
                let at = line_feed_at(available@);
                let line = line_grown(old(self)@, old(self).limit(), available@.take(at));
                if available@.len() == 0 {
                    &&& res.0 == 0
                    &&& res.1 is Some
                    &&& res.1->0@ == FrameView::Eof
                    &&& final(self)@ == line_start()
                } else if at == available@.len() {
                    &&& res.0 == available@.len()
                    &&& res.1 is None
                    &&& final(self)@ == line
                } else {
                    &&& res.0 == at + 1
                    &&& res.1 is Some
                    &&& res.1->0@ == line_frame(line)
                    &&& final(self)@ == line_start()
                }
            }),
    {
        let ghost before: LineView = self@;
        let ghost max: nat = self.limit();
        if available.len() == 0 {
            self.buffer = Vec::new();
            self.oversized = false;
            return (0, Some(FrameRead::Eof));
        }
        let at: usize = find_line_feed(available);
        if !self.oversized {
            let remaining: usize = self.max_length.saturating_sub(self.buffer.len());
            let copied: usize = if at < remaining {
                at
            } else {
                remaining
            };
            self.buffer.extend_from_slice(vstd::slice::slice_subrange(available, 0, copied));
            self.oversized = copied < at;
            assert(available@.take(at as int).take(copied as int) =~= available@.subrange(
                0,
                copied as int,
            ));
        }
        assert(self@ =~= line_grown(before, max, available@.take(at as int)));
        if at == available.len() {
            return (at, None);
        }
        let oversized: bool = self.oversized;
        let mut frame: Vec<u8> = Vec::new();
        frame.append(&mut self.buffer);
        self.buffer = Vec::new();
        self.oversized = false;
        if oversized {
            return (at + 1, Some(FrameRead::Oversized(frame)));
        }
        if frame.len() > 0 && frame[frame.len() - 1] == CR {
            frame.pop();
        }
        (at + 1, Some(FrameRead::Complete(frame)))
    }
}

fn find_line_feed(bytes: &[u8]) -> (res: usize)
    ensures
        res == line_feed_at(bytes@),
        res <= bytes@.len(),
{
    let mut i: usize = 0;
    assert(bytes@.skip(0) =~= bytes@);
    while i < bytes.len() && bytes[i] != LF
        invariant
            i <= bytes@.len(),
            line_feed_at(bytes@) == i + line_feed_at(bytes@.skip(i as int)),
        decreases bytes@.len() - i,
    {
        assert(bytes@.skip(i as int).drop_first() =~= bytes@.skip(i + 1));
        i += 1;
    }
    i
}

/// However a line is cut into pieces, the same of it is kept.
pub proof fn line_pieces_join(line: LineView, max: nat, a: Seq<u8>, b: Seq<u8>)
    requires
        line.kept.len() <= max,
    ensures
        line_grown(line_grown(line, max, a), max, b) == line_grown(line, max, a + b),
{
    let once = line_grown(line, max, a + b);
    let twice = line_grown(line_grown(line, max, a), max, b);
    if !line.oversized {
        let room = max - line.kept.len();
        if a.len() <= room && a.len() + b.len() > room {
            assert((a + b).take(room) =~= a + b.take(room - a.len()));
        }
        if a.len() > room {
            assert((a + b).take(room) =~= a.take(room));
        }
    }
    assert(twice =~= once);
}

/// A line is complete exactly when it has no more bytes than allowed, and is then kept
/// whole; of any other the first bytes are kept.
pub proof fn lines_are_bounded(max: nat, bytes: Seq<u8>)
    ensures
        line_frame(line_grown(line_start(), max, bytes)) == (if bytes.len() <= max {
            FrameView::Complete(without_return(bytes))
        } else {
            FrameView::Oversized(bytes.take(max as int))
        }),
{
    assert(Seq::<u8>::empty() + bytes =~= bytes);
    if bytes.len() > max {
        assert(Seq::<u8>::empty() + bytes.take(max as int) =~= bytes.take(max as int));
    }
}

proof fn first_line_feed(bytes: Seq<u8>, rest: Seq<u8>)
    requires
        forall|i: int| 0 <= i < bytes.len() ==> #[trigger] bytes[i] != LF,
    ensures
        line_feed_at(bytes.push(LF) + rest) == bytes.len(),
    decreases bytes.len(),
{
    let input = bytes.push(LF) + rest;
    if bytes.len() > 0 {
        assert(input[0] == bytes[0]);
        assert(input.drop_first() =~= bytes.drop_first().push(LF) + rest);
        assert forall|i: int| 0 <= i < bytes.drop_first().len() implies #[trigger] bytes.drop_first()[i]
            != LF by {
            assert(bytes[i + 1] != LF);
        }
        first_line_feed(bytes.drop_first(), rest);
    }
}

/// A message that is written as a frame is read back as it was: its one line feed ends
/// it, and the line before it is complete.
pub proof fn written_frames_are_read_back(max: nat, message: Seq<u8>)
    requires
        message.len() <= max,
        forall|i: int| 0 <= i < message.len() ==> #[trigger] message[i] != LF,
        message.len() > 0 ==> message.last() != CR,
    ensures
        line_feed_at(message.push(LF)) == message.len(),
        line_frame(line_grown(line_start(), max, message)) == FrameView::Complete(message),
{
    first_line_feed(message, Seq::empty());
    assert(message.push(LF) + Seq::<u8>::empty() =~= message.push(LF));
    lines_are_bounded(max, message);
}

/// Writes a serialized message as a frame. A message over the limit is refused, and
/// nothing of it is written.
pub fn encode_frame(serialized: &[u8], max_length: usize, output: &mut Vec<u8>) -> (res: bool)
    ensures
        res == (serialized@.len() <= max_length),
        final(output)@ == (if serialized@.len() <= max_length {
            old(output)@ + serialized@.push(LF)
        } else {
            old(output)@
        }),
{
    if serialized.len() > max_length {
        return false;
    }
    let ghost before: Seq<u8> = output@;
    output.extend_from_slice(serialized);
    output.push(LF);
    assert(output@ =~= before + serialized@.push(LF));
    true
}

/// What is to be done with what was read.
#[derive(Debug)]
pub enum FrameAction {
    /// Go on reading.
    Skip,
    /// Answer with an error, and go on reading.
    Respond { id: RequestId, error: McpError },
    /// Read a message from these bytes.
    Decode(Vec<u8>),
    /// Stop.
    Shutdown,
}

/// The content of a [`FrameAction`].
pub enum ActionView {
    Skip,
    Respond { id: RequestIdView, code: i32, message: Seq<char> },
    Decode(Seq<u8>),
    Shutdown,
}

impl View for FrameAction {
    type V = ActionView;

    open spec fn view(&self) -> ActionView {
        match self {
            FrameAction::Skip => ActionView::Skip,
            FrameAction::Respond { id, error } => ActionView::Respond {
                id: id@,
                code: error.code,
                message: error.message@,
            },
            FrameAction::Decode(bytes) => ActionView::Decode(bytes@),
            FrameAction::Shutdown => ActionView::Shutdown,
        }
    }
}

/// An answer with a protocol failure.
pub open spec fn failure_answer(
    id: RequestIdView,
    kind: ProtocolFailureKind,
    message: Seq<char>,
) -> ActionView {
    ActionView::Respond { id, code: protocol_code(kind), message }
}

/// What is to be done with a frame.
pub open spec fn frame_action(frame: FrameView) -> ActionView {
    match frame {
        FrameView::Complete(bytes) => if bytes.len() == 0 {
            ActionView::Skip
        } else {
            match malformed_call(bytes_tree(bytes)) {
                Some(id) => failure_answer(
                    id,
                    ProtocolFailureKind::InvalidParams,
                    "tools/call parameters are invalid"@,
                ),
                None => ActionView::Decode(bytes.push(LF)),
            }
        },
        FrameView::Oversized(prefix) => match safe_request_id(prefix) {
            Some(id) => failure_answer(
                id,
                ProtocolFailureKind::InvalidRequest,
                "MCP input frame exceeds the size limit"@,
            ),
            None => ActionView::Shutdown,
        },
        FrameView::Eof => ActionView::Shutdown,
    }
}

/// What is to be done with a frame from which no message could be read.
pub open spec fn undecoded_action(frame: Seq<u8>) -> ActionView {
    match refused_frame(bytes_tree(frame)) {
        Some((id, kind, message)) => failure_answer(id, kind, message),
        None => ActionView::Skip,
    }
}

fn respond(id: RequestId, kind: ProtocolFailureKind, message: &'static str) -> (res: FrameAction)
    ensures
        res@ == failure_answer(id@, kind, message@),
{
    FrameAction::Respond { id, error: ProtocolFailure::new(kind, message).into_mcp_error() }
}

/// Decides what is to be done with a frame.
pub fn decide_frame(frame: FrameRead) -> (res: FrameAction)
    ensures
        res@ == frame_action(frame@),
{
    match frame {
        FrameRead::Complete(frame) => {
            if frame.len() == 0 {
                return FrameAction::Skip;
            }
            match malformed_tool_call_id(frame.as_slice()) {
                Some(id) => respond(
                    id,
                    ProtocolFailureKind::InvalidParams,
                    "tools/call parameters are invalid",
                ),
                None => {
                    let mut framed: Vec<u8> = frame;
                    framed.push(LF);
                    FrameAction::Decode(framed)
                },
            }
        },
        FrameRead::Oversized(prefix) => match extract_safe_request_id(prefix.as_slice()) {
            Some(id) => respond(
                id,
                ProtocolFailureKind::InvalidRequest,
                "MCP input frame exceeds the size limit",
            ),
            None => FrameAction::Shutdown,
        },
        FrameRead::Eof => FrameAction::Shutdown,
    }
}

/// Decides what is to be done with a frame from which no message could be read.
pub fn decide_undecoded(frame: &[u8]) -> (res: FrameAction)
    ensures
        res@ == undecoded_action(frame@),
{
    match complete_frame_protocol_error(frame) {
        Some((id, kind, message)) => respond(id, kind, message),
        None => FrameAction::Skip,
    }
}

/// `rmcp`'s message of either side.
#[verifier::external_type_specification]
#[verifier::external_body]
#[verifier::reject_recursive_types(Req)]
#[verifier::reject_recursive_types(Resp)]
#[verifier::reject_recursive_types(Noti)]
pub struct ExJsonRpcMessage<Req, Resp, Noti>(rmcp::model::JsonRpcMessage<Req, Resp, Noti>);

/// `rmcp`'s requests of a client.
#[verifier::external_type_specification]
#[verifier::external_body]
pub struct ExClientRequest(rmcp::model::ClientRequest);

/// `rmcp`'s results of a client.
#[verifier::external_type_specification]
#[verifier::external_body]
pub struct ExClientResult(rmcp::model::ClientResult);

/// `rmcp`'s notifications of a client.
#[verifier::external_type_specification]
#[verifier::external_body]
pub struct ExClientNotification(rmcp::model::ClientNotification);

/// Why `rmcp` could not read a message.
#[verifier::external_type_specification]
#[verifier::external_body]
pub struct ExJsonRpcMessageCodecError(JsonRpcMessageCodecError);

/// What a line is to the protocol: a message, one that is to be ignored, or none.
pub enum LineReading {
    Message(ClientJsonRpcMessage),
    Nothing,
    Invalid,
}

/// What a line is to the protocol.
pub uninterp spec fn line_reading(line: Seq<u8>) -> LineReading;

/// Calls `JsonRpcMessageCodec::decode` of `rmcp` on one line. A codec without earlier
/// input finds the line feed of a line within its limit, and what it then gives depends
/// on the line alone: the message that the line holds, nothing for a notification that is
/// not of the protocol, or an error.
#[verifier::external_body]
fn decode_line(line: &[u8], max: usize) -> (res: Result<
    Option<ClientJsonRpcMessage>,
    JsonRpcMessageCodecError,
>)
    requires
        0 < line@.len() <= max + 1,
        line@.last() == LF,
    ensures
        match res {
            Ok(Some(message)) => line_reading(line@) == LineReading::Message(message),
            Ok(None) => line_reading(line@) == LineReading::Nothing,
            Err(_) => line_reading(line@) == LineReading::Invalid,
        },
{
    JsonRpcMessageCodec::new_with_max_length(max).decode(&mut BytesMut::from(line))
}

/// What comes of a frame.
pub enum Delivery {
    /// The message goes on to the server.
    Deliver(ClientJsonRpcMessage),
    /// The frame holds a message that is to be ignored.
    Ignore,
    /// The frame is dealt with as it says.
    Act(FrameAction),
}

/// The content of a [`Delivery`].
pub enum DeliveryView {
    Deliver(ClientJsonRpcMessage),
    Ignore,
    Act(ActionView),
}

impl View for Delivery {
    type V = DeliveryView;

    open spec fn view(&self) -> DeliveryView {
        match self {
            Delivery::Deliver(message) => DeliveryView::Deliver(*message),
            Delivery::Ignore => DeliveryView::Ignore,
            Delivery::Act(action) => DeliveryView::Act(action@),
        }
    }
}

/// What comes of a line, by what it is to the protocol.
pub open spec fn delivered_line(line: Seq<u8>, reading: LineReading) -> DeliveryView {
    match reading {
        LineReading::Message(message) => DeliveryView::Deliver(message),
        LineReading::Nothing => DeliveryView::Ignore,
        LineReading::Invalid => DeliveryView::Act(undecoded_action(line.drop_last())),
    }
}

/// What comes of a frame: what there is to decode is decoded, so nothing is left to be.
pub open spec fn delivered_frame(frame: FrameView) -> DeliveryView {
    match frame_action(frame) {
        ActionView::Decode(line) => delivered_line(line, line_reading(line)),
        action => DeliveryView::Act(action),
    }
}

/// Deals with a line, given what it is to the protocol.
pub fn deliver_reading(line: Vec<u8>, reading: LineReading) -> (res: Delivery)
    requires
        0 < line@.len(),
    ensures
        res@ == delivered_line(line@, reading),
{
    match reading {
        LineReading::Message(message) => Delivery::Deliver(message),
        LineReading::Nothing => Delivery::Ignore,
        LineReading::Invalid => {
            let frame: &[u8] = vstd::slice::slice_subrange(line.as_slice(), 0, line.len() - 1);
            assert(frame@ =~= line@.drop_last());
            Delivery::Act(decide_undecoded(frame))
        },
    }
}

/// Takes a line to the message that it holds, or deals with it otherwise.
pub fn deliver_line(line: Vec<u8>) -> (res: Delivery)
    requires
        0 < line@.len() <= MAX_INBOUND_MESSAGE_BYTES + 1,
        line@.last() == LF,
    ensures
        res@ == delivered_line(line@, line_reading(line@)),
{
    let reading: LineReading = match decode_line(line.as_slice(), MAX_INBOUND_MESSAGE_BYTES) {
        Ok(Some(message)) => LineReading::Message(message),
        Ok(None) => LineReading::Nothing,
        Err(_) => LineReading::Invalid,
    };
    deliver_reading(line, reading)
}

/// Takes a frame to the message that it holds, or deals with it otherwise.
pub fn deliver_frame(frame: FrameRead) -> (res: Delivery)
    requires
        frame@ matches FrameView::Complete(bytes) ==> bytes.len() <= MAX_INBOUND_MESSAGE_BYTES,
    ensures
        res@ == delivered_frame(frame@),
{
    match decide_frame(frame) {
        FrameAction::Decode(line) => deliver_line(line),
        action => Delivery::Act(action),
    }
}

/// Whatever is read of a line, no more than its limit is kept, and a complete frame is
/// within it.
pub proof fn read_frames_are_bounded(line: LineView, max: nat, bytes: Seq<u8>)
    requires
        line.kept.len() <= max,
    ensures
        line_grown(line, max, bytes).kept.len() <= max,
        line_frame(line_grown(line, max, bytes)) matches FrameView::Complete(frame) ==> frame.len()
            <= max,
{
}

/// Every frame within the limit is delivered, ignored, skipped or answered: only the end
/// of the input, or a frame over the limit without an identifier, closes it.
pub proof fn only_ends_and_nameless_frames_close_the_input(frame: FrameView)
    ensures
        delivered_frame(frame) == DeliveryView::Act(ActionView::Shutdown) ==> frame is Eof || (frame
            matches FrameView::Oversized(prefix) && safe_request_id(prefix) is None),
        !(delivered_frame(frame) matches DeliveryView::Act(action) && action is Decode),
{
}

/// Whatever line comes before it, over the limit or not, a line within the limit makes a
/// frame of its own, and the message that is delivered for it is the one that it holds.
pub proof fn lines_deliver_their_own_messages(
    max: nat,
    before: Seq<u8>,
    line: Seq<u8>,
    rest: Seq<u8>,
)
    requires
        forall|i: int| 0 <= i < before.len() ==> #[trigger] before[i] != LF,
        forall|i: int| 0 <= i < line.len() ==> #[trigger] line[i] != LF,
        0 < line.len() <= max,
        line.last() != CR,
    ensures
        ({
            let input = before.push(LF) + (line.push(LF) + rest);
            let left = input.skip(line_feed_at(input) + 1);
            let frame = line_frame(
                line_grown(line_start(), max, left.take(line_feed_at(left))),
            );
            &&& line_feed_at(input) == before.len()
            &&& frame == FrameView::Complete(line)
            &&& left.skip(line_feed_at(left) + 1) == rest
            &&& delivered_frame(frame) matches DeliveryView::Deliver(message) ==> line_reading(
                line.push(LF),
            ) == LineReading::Message(message)
            &&& line_reading(line.push(LF)) matches LineReading::Message(message)
                ==> malformed_call(bytes_tree(line)) is None ==> delivered_frame(frame)
                == DeliveryView::Deliver(message)
        }),
{
    let left = line.push(LF) + rest;
    let input = before.push(LF) + left;
    first_line_feed(before, left);
    first_line_feed(line, rest);
    assert(input.skip(before.len() as int + 1) =~= left);
    assert(left.take(line.len() as int) =~= line);
    assert(left.skip(line.len() as int + 1) =~= rest);
    lines_are_bounded(max, line);
}

/// A frame over the limit is never decoded: it is answered, or the input is closed.
pub proof fn oversized_lines_are_never_decoded(max: nat, line: Seq<u8>)
    requires
        line.len() > max,
    ensures
        !(frame_action(line_frame(line_grown(line_start(), max, line))) is Decode),
{
    lines_are_bounded(max, line);
}

/// A frame within the limit goes on to be decoded as it is, unless it is empty or asks for
/// a tool without valid parameters: that is answered under its own identifier.
pub proof fn good_frames_are_decoded(bytes: Seq<u8>)
    ensures
        ({
            let action = frame_action(FrameView::Complete(bytes));
            &&& bytes.len() == 0 ==> action is Skip
            &&& bytes.len() > 0 && malformed_call(bytes_tree(bytes)) is None ==> action
                == ActionView::Decode(bytes + seq![LF])
            &&& bytes.len() > 0 ==> (malformed_call(bytes_tree(bytes)) matches Some(id) ==> (
            action matches ActionView::Respond { id: to, code, message: _ } && to == id && code
                == -32602))
        }),
{
    assert(bytes.push(LF) =~= bytes + seq![LF]);
}

/// A frame over the limit is answered under its identifier as an invalid request where it
/// can be told, and else closes the input, as its end does.
pub proof fn oversized_frames_are_answered(prefix: Seq<u8>)
    ensures
        ({
            let action = frame_action(FrameView::Oversized(prefix));
            &&& safe_request_id(prefix) matches Some(id) ==> (action matches ActionView::Respond {
                id: to,
                code,
                message: _,
            } && to == id && code == -32600)
            &&& safe_request_id(prefix) is None ==> action is Shutdown
        }),
        frame_action(FrameView::Eof) is Shutdown,
{
}

/// A frame that holds no message is answered under its identifier, or skipped where it has
/// none.
pub proof fn undecoded_frames_are_answered(frame: Seq<u8>)
    ensures
        match refused_frame(bytes_tree(frame)) {
            Some((id, kind, message)) => undecoded_action(frame) matches ActionView::Respond {
                id: to,
                code,
                message: said,
            } && to == id && said == message && code == (if kind
                == ProtocolFailureKind::InvalidParams {
                -32602i32
            } else {
                -32600i32
            }),
            None => undecoded_action(frame) is Skip,
        },
{
}

/// Of a line the bytes are kept as they come, up to the limit; a carriage return at its end
/// is no part of the frame.
pub proof fn frames_are_their_lines(max: nat, line: Seq<u8>)
    requires
        line.len() < max,
        line.len() > 0 ==> line.last() != CR,
    ensures
        line_frame(line_grown(line_start(), max, line)) == FrameView::Complete(line),
        line_frame(line_grown(line_start(), max, line.push(CR))) == FrameView::Complete(line),
{
    lines_are_bounded(max, line);
    lines_are_bounded(max, line.push(CR));
    assert(line.push(CR).drop_last() =~= line);
}

/// One carriage return at the end of a line belongs to its ending, and no more than one.
pub proof fn one_return_is_dropped(max: nat, line: Seq<u8>)
    requires
        line.len() < max,
    ensures
        line_frame(line_grown(line_start(), max, line.push(CR))) == FrameView::Complete(line),
{
    lines_are_bounded(max, line.push(CR));
    assert(line.push(CR).drop_last() =~= line);
}

} // verus!
