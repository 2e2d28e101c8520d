use std::cell::Cell;
use std::rc::Rc;
use std::task::Poll;

use eventsource_stream::{EventStreamError, Eventsource};
use futures_util::stream::{poll_fn, Stream};
use futures_util::{FutureExt, StreamExt};

use onec_buddy_mcp::error::{ClientCallError, ToolFailure, ToolFailureKind};
use onec_buddy_mcp::json::Json;
use onec_buddy_mcp::json_text::json_string;
use onec_buddy_mcp::limits::{SSE_EVENT_MAX_BYTES, SSE_STREAM_MAX_BYTES};
use onec_buddy_mcp::naparnik::response::{AssistantResponse, ResponseState};
use onec_buddy_mcp::naparnik::sse::{
    map_stream_error, read_step, BoundedSseStream, NextEvent, StreamFailure, StreamInput,
    StreamItem, StreamStep,
};

fn bounded(
    chunks: Vec<Vec<u8>>,
    total: Rc<Cell<usize>>,
) -> impl Stream<Item = Result<Vec<u8>, StreamFailure>> {
    let mut stream = BoundedSseStream::new();
    let mut chunks = chunks.into_iter();
    poll_fn(move |_| {
        let chunk = chunks.next();
        let item = stream.accept(match &chunk {
            Some(chunk) => StreamInput::Chunk(chunk),
            None => StreamInput::Ended,
        });
        total.set(stream.total_bytes());
        Poll::Ready(match item {
            StreamItem::Bytes(bytes) => Some(Ok(bytes)),
            StreamItem::End => None,
            StreamItem::EventTooLarge => Some(Err(StreamFailure::EventTooLarge)),
            StreamItem::StreamTooLarge => Some(Err(StreamFailure::StreamTooLarge)),
            StreamItem::Transport => Some(Err(StreamFailure::Transport)),
        })
    })
}

fn parse(bytes: &[u8], chunk_size: usize) -> Result<AssistantResponse, ClientCallError> {
    let chunks = bytes.chunks(chunk_size).map(<[u8]>::to_vec).collect();
    let total = Rc::new(Cell::new(0));
    let mut events = Box::pin(bounded(chunks, total.clone()).eventsource());
    let mut state = ResponseState::default();
    loop {
        let event = events.next().now_or_never().expect("every chunk is there");
        let next = match &event {
            None => NextEvent::Ended,
            Some(Ok(event)) => NextEvent::Data(&event.data),
            Some(Err(EventStreamError::Transport(failure))) => NextEvent::Failed(*failure),
            Some(Err(EventStreamError::Utf8(_))) => NextEvent::Failed(StreamFailure::Utf8),
            Some(Err(EventStreamError::Parser(_))) => NextEvent::Failed(StreamFailure::Parser),
        };
        match read_step(state, total.get(), next)? {
            StreamStep::Continue(next_state) => state = next_state,
            StreamStep::Finished(response) => return Ok(response),
        }
    }
}

fn failure(error: ClientCallError) -> ToolFailure {
    match error {
        ClientCallError::Failure(failure) => failure,
        ClientCallError::Cancelled => panic!("unexpected cancellation"),
    }
}

fn failure_kind(error: ClientCallError) -> ToolFailureKind {
    failure(error).kind()
}

fn is_text(value: Option<&Json>, expected: &str) -> bool {
    matches!(value, Some(Json::Text(text)) if text == expected)
}

#[test]
fn finished_tool_events_preserve_rendered_results_before_empty_assistant_text() {
    let payload = [
        "data: {\"role\":\"tool\",\"render_info\":[",
        "{\"response_markdown\":\"Ошибок не обнаружено\",",
        "\"details\":{\"response_details\":[\"подробность\",true]}}",
        "],\"finished\":true}\n\n",
        "data: {\"uuid\":\"assistant-1\",\"role\":\"assistant\",\"finished\":true}\n\n",
    ]
    .concat();
    let response = parse(payload.as_bytes(), 5).unwrap();
    assert!(response.text().is_empty());
    assert!(response.final_text().is_empty());
    assert_eq!(response.tool_results().len(), 1);
    assert_eq!(
        response.tool_results()[0].response_markdown(),
        "Ошибок не обнаружено"
    );
    let details: Vec<String> = response.tool_results()[0]
        .response_details()
        .iter()
        .map(|detail| json_string(detail).unwrap())
        .collect();
    assert_eq!(details, ["\"подробность\"", "true"]);
}

#[test]
fn arbitrary_byte_boundaries_preserve_utf8_crlf_fields_and_multiline_data() {
    let payload = [
        "\u{feff}: комментарий\r\n",
        "event: message\r\n",
        "id: event-1\r\n",
        "retry: 25\r\n",
        "data: {\"uuid\":\"assistant-1\",\"role\":\"assistant\",\r\n",
        "data: \"content\":{\"content\":\"привет\"},\"finished\":false}\r\n",
        "\r\n",
        "data: {\"uuid\":\"assistant-1\",\"role\":\"assistant\",",
        "\"content_delta\":{\"content\":\"!\",\"reasoning_content\":\"скрыто\"},",
        "\"finished\":true}\r\n\r\n",
    ]
    .concat();

    for chunk_size in 1..=payload.len() {
        let response = parse(payload.as_bytes(), chunk_size).unwrap();
        assert_eq!(response.text(), "привет!");
        assert_eq!(response.reasoning(), "скрыто");
        assert_eq!(response.assistant_uuid(), Some("assistant-1"));
        assert!(response.tool_calls().is_empty());
    }
}

#[test]
fn lf_crlf_and_cr_are_supported_and_snapshots_replace_prior_text() {
    for eol in ["\n", "\r\n", "\r"] {
        let events = [
            r#"{"uuid":"a","role":"assistant","content_delta":{"content":"old"},"finished":false}"#,
            r#"{"uuid":"a","role":"assistant","content":{"content":"new"},"finished":false}"#,
            r#"{"uuid":"a","role":"assistant","content_delta":{"content":"!"},"finished":true}"#,
        ];
        let mut payload = String::new();
        for event in events {
            payload.push_str("data: ");
            payload.push_str(event);
            payload.push_str(eol);
            payload.push_str(eol);
        }

        let response = parse(payload.as_bytes(), 1).unwrap();
        assert_eq!(response.text(), "new!");
    }
}

#[test]
fn a_snapshot_wins_over_a_delta_from_the_same_event() {
    let payload = [
        "data: {\"uuid\":\"assistant-1\",\"role\":\"assistant\",",
        "\"content\":{\"content\":\"abc\",\"reasoning_content\":\"reason\"},",
        "\"content_delta\":{\"content\":\"c\",\"reasoning_content\":\"reason\"},",
        "\"finished\":false}\n\n",
        "data: {\"uuid\":\"assistant-1\",\"role\":\"assistant\",",
        "\"content_delta\":{\"content\":\"d\",\"reasoning_content\":\"!\"},",
        "\"finished\":true}\n\n",
    ]
    .concat();

    let response = parse(payload.as_bytes(), 5).unwrap();
    assert_eq!(response.text(), "abcd");
    assert_eq!(response.reasoning(), "reason!");
}

#[test]
fn a_tool_call_delta_does_not_replace_the_complete_snapshot() {
    let payload = [
        "data: {\"uuid\":\"assistant-1\",\"role\":\"assistant\",",
        "\"content\":{\"tool_calls\":[{\"id\":\"call-1\",\"function\":{",
        "\"name\":\"TaskResult\",\"arguments\":\"{\\\"result\\\":\\\"ok\\\"}\"}}]},",
        "\"finished\":false}\n\n",
        "data: {\"uuid\":\"assistant-1\",\"role\":\"assistant\",",
        "\"content_delta\":{\"tool_calls\":[{\"id\":\"call-1\",\"function\":{",
        "\"name\":\"TaskResult\",\"arguments\":\"{\"}}]},",
        "\"finished\":true}\n\n",
    ]
    .concat();

    let response = parse(payload.as_bytes(), 5).unwrap();
    assert_eq!(response.tool_calls().len(), 1);
    assert_eq!(response.tool_calls()[0].name(), "TaskResult");
    assert!(is_text(response.tool_calls()[0].arguments().get("result"), "ok"));
}

#[test]
fn done_is_exact_and_eof_without_a_terminal_state_is_an_error() {
    let done = parse(b"data: [DONE]\n\n", 1).unwrap();
    assert_eq!(done.text(), "");

    let not_exact = parse(b"data: [DONE] \n\n", 2).unwrap_err();
    assert_eq!(failure_kind(not_exact), ToolFailureKind::UpstreamProtocol);

    let implicit_eof = parse(
        b"data: {\"uuid\":\"a\",\"role\":\"assistant\",\"finished\":false}\n\n",
        3,
    )
    .unwrap_err();
    assert_eq!(
        failure_kind(implicit_eof),
        ToolFailureKind::UpstreamProtocol
    );
}

#[test]
fn malformed_utf8_and_json_are_not_silently_skipped() {
    let malformed_utf8 = parse(b"data: \xff\n\n", 1).unwrap_err();
    assert_eq!(
        failure_kind(malformed_utf8),
        ToolFailureKind::UpstreamProtocol
    );

    let malformed_json = parse(b"data: {not-json}\n\n", 2).unwrap_err();
    assert_eq!(
        failure_kind(malformed_json),
        ToolFailureKind::UpstreamProtocol
    );
}

#[test]
fn event_and_stream_limits_are_enforced_before_unbounded_accumulation() {
    let oversized_event = format!(
        "data: {}\n\n",
        "x".repeat(SSE_EVENT_MAX_BYTES.saturating_add(1))
    );
    let event_error = parse(oversized_event.as_bytes(), 4096).unwrap_err();
    assert_eq!(failure_kind(event_error), ToolFailureKind::LimitExceeded);

    let event = "data: {}\n\n";
    let oversized_stream = event.repeat(SSE_STREAM_MAX_BYTES / event.len() + 1);
    let stream_error = parse(oversized_stream.as_bytes(), 4096).unwrap_err();
    assert_eq!(failure_kind(stream_error), ToolFailureKind::LimitExceeded);
}

#[test]
fn exact_event_and_stream_byte_boundaries_are_accepted() {
    let event_prefix = r#"data: {"uuid":"assistant-1","role":"assistant","content":{"content":""#;
    let event_suffix = r#""},"finished":true}"#;
    let event_content_bytes = SSE_EVENT_MAX_BYTES
        .checked_sub(event_prefix.len() + event_suffix.len())
        .expect("event envelope fits the limit");
    let exact_event = format!(
        "{event_prefix}{}{event_suffix}\n\n",
        "x".repeat(event_content_bytes)
    );
    assert_eq!(exact_event.len() - 2, SSE_EVENT_MAX_BYTES);
    let response =
        parse(exact_event.as_bytes(), 4096).expect("an event at the exact limit is accepted");
    assert_eq!(response.text().len(), event_content_bytes);

    let terminal = b"data: [DONE]\n\n";
    let mut exact_stream = Vec::with_capacity(SSE_STREAM_MAX_BYTES);
    let mut filler_bytes = SSE_STREAM_MAX_BYTES - terminal.len();
    while filler_bytes > 0 {
        let mut event_length = filler_bytes.min(SSE_EVENT_MAX_BYTES + 2);
        if filler_bytes > event_length && filler_bytes - event_length < 3 {
            event_length -= 3 - (filler_bytes - event_length);
        }
        assert!(event_length >= 3);
        exact_stream.push(b':');
        exact_stream.extend(std::iter::repeat_n(b'x', event_length - 3));
        exact_stream.extend_from_slice(b"\n\n");
        filler_bytes -= event_length;
    }
    exact_stream.extend_from_slice(terminal);
    assert_eq!(exact_stream.len(), SSE_STREAM_MAX_BYTES);
    parse(&exact_stream, 64 * 1024).expect("an SSE stream at the exact limit is accepted");
}

#[test]
fn stream_and_accumulated_result_share_the_eight_mib_limit() {
    let mut payload = String::new();
    for (index, fill) in ['a', 'b', 'c', 'd', 'e', 'f'].into_iter().enumerate() {
        payload.push_str(&format!(
            "data: {{\"uuid\":\"assistant-1\",\"role\":\"assistant\",\"content_delta\":{{\"content\":\"{}\"}},\"finished\":{}}}\n\n",
            fill.to_string().repeat(700_000),
            index == 5
        ));
    }
    assert!(payload.len() < SSE_STREAM_MAX_BYTES);

    let error = parse(payload.as_bytes(), 4096)
        .expect_err("stream bytes plus accumulated result exceed eight MiB");
    assert_eq!(failure_kind(error), ToolFailureKind::LimitExceeded);
}

#[test]
fn tool_calls_are_a_complete_validated_array_and_require_an_assistant_uuid() {
    let valid = [
        "data: {\"uuid\":\"assistant-1\",\"role\":\"assistant\",\"content\":{\"tool_calls\":[",
        "{\"id\":\"call-1\",\"function\":{\"name\":\"TaskResult\",\"arguments\":{\"result\":\"one\"}}},",
        "{\"id\":\"call-2\",\"function\":{\"name\":\"mcp__syntax-checker__validate\",\"arguments\":{}}}",
        "]},\"finished\":true}\n\n",
    ]
    .concat();
    let response = parse(valid.as_bytes(), 7).unwrap();
    assert_eq!(response.tool_calls().len(), 2);
    assert_eq!(response.tool_calls()[0].id(), "call-1");
    assert_eq!(response.tool_calls()[1].id(), "call-2");

    let string_arguments = [
        "data: {\"uuid\":\"assistant-1\",\"role\":\"assistant\",\"content\":{\"tool_calls\":[",
        "{\"id\":\"call-1\",\"function\":{\"name\":\"TaskResult\",",
        "\"arguments\":\"{\\\"result\\\":\\\"one\\\"}\"}}",
        "]},\"finished\":true}\n\n",
    ]
    .concat();
    let response = parse(string_arguments.as_bytes(), 3).unwrap();
    assert!(is_text(response.tool_calls()[0].arguments().get("result"), "one"));

    for invalid in [
        r#"{"uuid":"a","role":"assistant","content":{"tool_calls":[{"id":"","function":{"name":"TaskResult","arguments":{}}}]},"finished":true}"#,
        r#"{"uuid":"a","role":"assistant","content":{"tool_calls":[{"id":"x","function":{"name":7,"arguments":{}}}]},"finished":true}"#,
        r#"{"uuid":"a","role":"assistant","content":{"tool_calls":[{"id":"x","function":{"name":"TaskResult","arguments":"{"}}]},"finished":true}"#,
        r#"{"uuid":"a","role":"assistant","content":{"tool_calls":[{"id":"x","function":{"name":"TaskResult","arguments":"[]"}}]},"finished":true}"#,
        r#"{"uuid":"a","role":"assistant","content":{"tool_calls":[{"id":"x","function":{"name":"TaskResult","arguments":7}}]},"finished":true}"#,
        r#"{"uuid":"a","role":"assistant","content":{"tool_calls":[{"id":"x","function":{"name":"TaskResult"}}]},"finished":true}"#,
        r#"{"uuid":"a","role":"assistant","content":{"tool_calls":[{"id":"x","function":{"name":"TaskResult","arguments":{}}},{"id":"x","function":{"name":"TaskResult","arguments":{}}}]},"finished":true}"#,
        r#"{"role":"assistant","content":{"tool_calls":[{"id":"x","function":{"name":"TaskResult","arguments":{}}}]},"finished":true}"#,
        r#"{"uuid":"a","role":"assistant","content":{"tool_calls":{}},"finished":true}"#,
    ] {
        let payload = format!("data: {invalid}\n\n");
        let error = parse(payload.as_bytes(), 5).unwrap_err();
        assert_eq!(failure_kind(error), ToolFailureKind::UpstreamProtocol);
    }

    let missing_uuid_before_done = [
        "data: {\"role\":\"assistant\",\"content\":{\"tool_calls\":[",
        "{\"id\":\"x\",\"function\":{\"name\":\"TaskResult\",\"arguments\":{}}}",
        "]},\"finished\":false}\n\n",
        "data: [DONE]\n\n",
    ]
    .concat();
    let error = parse(missing_uuid_before_done.as_bytes(), 4).unwrap_err();
    assert_eq!(failure_kind(error), ToolFailureKind::UpstreamProtocol);
}

#[test]
fn null_tool_calls_are_treated_as_absent_in_every_supported_location() {
    for event in [
        r#"{"uuid":"assistant-1","role":"assistant","content":{"content":"ok","tool_calls":null},"finished":true}"#,
        r#"{"uuid":"assistant-1","role":"assistant","content_delta":{"content":"ok","tool_calls":null},"finished":true}"#,
        r#"{"uuid":"assistant-1","role":"assistant","content":{"content":"ok"},"tool_calls":null,"finished":true}"#,
    ] {
        let payload = format!("data: {event}\n\n");
        let response = parse(payload.as_bytes(), 5).unwrap();
        assert_eq!(response.text(), "ok");
        assert!(response.tool_calls().is_empty());
    }

    let retained = [
        "data: {\"uuid\":\"assistant-1\",\"role\":\"assistant\",\"content\":{\"tool_calls\":[",
        "{\"id\":\"call-1\",\"function\":{\"name\":\"TaskResult\",\"arguments\":{}}}",
        "]},\"finished\":false}\n\n",
        "data: {\"uuid\":\"assistant-1\",\"role\":\"assistant\",\"tool_calls\":null,\"finished\":true}\n\n",
    ]
    .concat();
    let response = parse(retained.as_bytes(), 7).unwrap();
    assert_eq!(response.tool_calls().len(), 1);
    assert_eq!(response.tool_calls()[0].id(), "call-1");
}

#[test]
fn an_answer_is_read_from_a_byte_stream() {
    let payload = [
        "data: {\"uuid\":\"assistant-1\",\"role\":\"assistant\",",
        "\"content_delta\":{\"content\":\"answer\"},\"finished\":true}\r\n\r\n",
    ]
    .concat();
    let parsed = parse(payload.as_bytes(), payload.len()).expect("SSE response must parse");

    assert_eq!(parsed.text(), "answer");
    assert_eq!(parsed.assistant_uuid(), Some("assistant-1"));
}

#[test]
fn waiting_for_a_complete_event_obeys_timeout_and_cancellation() {
    let step = |next: NextEvent<'_>| read_step(ResponseState::default(), 0, next).unwrap_err();
    let timeout = failure(step(NextEvent::EventTimedOut));
    assert_eq!(timeout.kind(), ToolFailureKind::Timeout);
    assert!(timeout.ambiguous_outcome());
    assert_eq!(
        timeout.message(),
        "the service did not produce a complete SSE event in time"
    );
    let deadline = failure(step(NextEvent::DeadlinePassed));
    assert_eq!(deadline.kind(), ToolFailureKind::Timeout);
    assert_eq!(
        deadline.message(),
        "the external operation exceeded its deadline while reading SSE"
    );
    assert!(matches!(
        step(NextEvent::Cancelled),
        ClientCallError::Cancelled
    ));
}

#[test]
fn transport_failure_is_returned_without_polling_for_a_reconnection() {
    let mut stream = BoundedSseStream::new();
    assert!(matches!(
        stream.accept(StreamInput::Failed),
        StreamItem::Transport
    ));
    assert!(stream.is_terminated());
    assert!(matches!(
        stream.accept(StreamInput::Chunk(b"data: [DONE]\n\n")),
        StreamItem::End
    ));
    let error = failure(map_stream_error(StreamFailure::Transport));
    assert_eq!(error.kind(), ToolFailureKind::UpstreamTransport);
    assert!(error.ambiguous_outcome());
}

#[test]
fn stream_failures_have_messages_of_their_own() {
    for (failed, kind, message) in [
        (
            StreamFailure::EventTooLarge,
            ToolFailureKind::LimitExceeded,
            "an SSE event exceeds the size limit",
        ),
        (
            StreamFailure::StreamTooLarge,
            ToolFailureKind::LimitExceeded,
            "the SSE stream exceeds the size limit",
        ),
        (
            StreamFailure::Utf8,
            ToolFailureKind::UpstreamProtocol,
            "the SSE stream contains invalid UTF-8",
        ),
        (
            StreamFailure::Parser,
            ToolFailureKind::UpstreamProtocol,
            "the SSE stream is malformed",
        ),
    ] {
        let failure = failure(map_stream_error(failed));
        assert_eq!(failure.kind(), kind);
        assert_eq!(failure.message(), message);
        assert!(!failure.ambiguous_outcome());
    }
}

#[test]
fn only_an_opening_mark_is_dropped_and_line_endings_are_evened() {
    let outputs = |chunks: &[&[u8]]| {
        let mut stream = BoundedSseStream::new();
        let mut output = Vec::new();
        for chunk in chunks {
            let StreamItem::Bytes(bytes) = stream.accept(StreamInput::Chunk(chunk)) else {
                panic!("chunk within the limits");
            };
            output.extend(bytes);
        }
        while let StreamItem::Bytes(bytes) = stream.accept(StreamInput::Ended) {
            output.extend(bytes);
        }
        output
    };
    assert_eq!(outputs(&[b"\xef", b"\xbb", b"\xbfa\xef\xbb\xbf"]), b"a\xef\xbb\xbf");
    assert_eq!(outputs(&[b"\xef\xbb"]), b"\xef\xbb");
    assert_eq!(outputs(&[b"\xef\xbbx"]), b"\xef\xbbx");
    assert_eq!(outputs(&[b"a\r", b"\nb\r", b"\rc\n\r"]), b"a\nb\n\nc\n\n");
    assert_eq!(outputs(&[b""]), b"");
}

#[test]
fn line_endings_are_evened_piece_by_piece() {
    let bytes: &[u8] = b"a\r\nb\rc\n\r\rd\r";
    for at in 0..=bytes.len() {
        let mut cut = BoundedSseStream::new();
        let mut out = cut.normalize_line_endings(&bytes[..at]);
        out.extend(cut.normalize_line_endings(&bytes[at..]));
        let mut whole = BoundedSseStream::new();
        assert_eq!(out, whole.normalize_line_endings(bytes));
        assert_eq!(out, b"a\nb\nc\n\n\nd");
        assert!(matches!(cut.flush_end(), StreamItem::Bytes(rest) if rest == b"\n"));
        assert!(matches!(cut.flush_end(), StreamItem::End));
    }
}

#[test]
fn whole_streams_come_through_without_a_leading_mark() {
    let bytes: &[u8] = b"\xef\xbb\xbfdata: 1\r\n\r\n\xef\xbb";
    for at in 0..=bytes.len() {
        let mut stream = BoundedSseStream::new();
        let mut out = Vec::new();
        for chunk in [&bytes[..at], &bytes[at..]] {
            match stream.transform_chunk(chunk) {
                StreamItem::Bytes(bytes) => out.extend(bytes),
                other => panic!("{other:?}"),
            }
        }
        assert!(matches!(stream.flush_end(), StreamItem::End));
        assert_eq!(out, b"data: 1\n\n\xef\xbb");
    }
    let mut short = BoundedSseStream::new();
    assert!(matches!(short.transform_chunk(b"\xef\xbb"), StreamItem::Bytes(out) if out.is_empty()));
    assert!(matches!(short.flush_end(), StreamItem::Bytes(out) if out == b"\xef\xbb"));
    assert!(matches!(short.flush_end(), StreamItem::End));
}
