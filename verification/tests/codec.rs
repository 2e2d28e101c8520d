use onec_buddy_mcp::json_text::parse_json;
use onec_buddy_mcp::mcp::codec::{
    decide_frame, decide_undecoded, deliver_frame, deliver_line, deliver_reading, encode_frame,
    BoundedFrameReader, Delivery, FrameAction, FrameRead, LineReading, MAX_INBOUND_MESSAGE_BYTES,
    MAX_OUTBOUND_MESSAGE_BYTES,
};
use onec_buddy_mcp::mcp::request_id::{
    complete_frame_protocol_error, extract_safe_request_id, malformed_tool_call_id, RequestId,
};
use rmcp::model::{
    CallToolResult, ClientJsonRpcMessage, ClientNotification, ContentBlock, ServerJsonRpcMessage,
    ServerResult,
};

fn read_frames(input: &[u8], chunk_size: usize) -> Vec<FrameRead> {
    let mut reader = BoundedFrameReader::new(MAX_INBOUND_MESSAGE_BYTES);
    let mut frames = Vec::new();
    for chunk in input.chunks(chunk_size) {
        let mut rest = chunk;
        while !rest.is_empty() {
            let (used, frame) = reader.accept(rest);
            rest = &rest[used..];
            frames.extend(frame);
        }
    }
    let (used, frame) = reader.accept(&[]);
    assert_eq!(used, 0);
    frames.extend(frame);
    frames
}

fn response(text: String, id: i64) -> ServerJsonRpcMessage {
    ServerJsonRpcMessage::response(
        ServerResult::CallToolResult(CallToolResult::success(vec![ContentBlock::text(text)])),
        rmcp::model::RequestId::Number(id),
    )
}

#[test]
fn transport_reports_the_two_mib_inbound_limit() {
    let reader = BoundedFrameReader::new(MAX_INBOUND_MESSAGE_BYTES);

    assert_eq!(reader.max_length(), 2 * 1024 * 1024);
}

#[test]
fn valid_frame_at_the_two_mib_boundary_is_accepted() {
    let valid_message = br#"{"jsonrpc":"2.0","method":"notifications/initialized"}"#;
    let mut input = valid_message.to_vec();
    input.resize(MAX_INBOUND_MESSAGE_BYTES, b' ');
    input.push(b'\n');

    let mut frames = read_frames(&input, 8192);
    assert_eq!(frames.len(), 2);
    assert!(matches!(frames[1], FrameRead::Eof));
    assert!(
        matches!(
            deliver_frame(frames.remove(0)),
            Delivery::Deliver(ClientJsonRpcMessage::Notification(_))
        ),
        "a valid frame at the limit must pass"
    );
}

#[test]
fn oversized_corrupted_frame_closes_before_the_next_message() {
    let valid_message = br#"{"jsonrpc":"2.0","method":"notifications/initialized"}"#;
    let mut input = vec![b' '; MAX_INBOUND_MESSAGE_BYTES + 1];
    input.push(b'\n');
    input.extend_from_slice(valid_message);
    input.push(b'\n');

    let mut frames = read_frames(&input, 8192);
    assert!(
        matches!(
            deliver_frame(frames.remove(0)),
            Delivery::Act(FrameAction::Shutdown)
        ),
        "an oversized frame without a safely extracted id must close the input"
    );
}

#[test]
fn oversized_frame_with_safe_id_gets_protocol_error_and_is_discarded() {
    let prefix = br#"{"jsonrpc":"2.0","id":41,"method":"tools/call","params":{"name":"ask_1c_ai","arguments":{"question":""#;
    let suffix = br#""}}}"#;
    let mut oversized = prefix.to_vec();
    oversized.resize(MAX_INBOUND_MESSAGE_BYTES + 1 - suffix.len(), b'x');
    oversized.extend_from_slice(suffix);
    oversized.push(b'\n');
    oversized.extend_from_slice(br#"{"jsonrpc":"2.0","method":"notifications/initialized"}"#);
    oversized.push(b'\n');

    let mut frames = read_frames(&oversized, 8192);
    let Delivery::Act(FrameAction::Respond { id, error }) = deliver_frame(frames.remove(0)) else {
        panic!("an oversized request with a safe id must be answered");
    };
    assert_eq!(id, RequestId::Number(41));
    assert_eq!(error.code, -32600);
    assert_eq!(error.message, "MCP input frame exceeds the size limit");
    assert!(
        matches!(
            deliver_frame(frames.remove(0)),
            Delivery::Deliver(ClientJsonRpcMessage::Notification(message))
                if matches!(
                    message.notification,
                    ClientNotification::InitializedNotification(_)
                )
        ),
        "the frame after an oversized request with a safe id must be processed"
    );
}

#[test]
fn malformed_tool_call_with_safe_id_gets_invalid_params_error() {
    let input = [
        "{\"jsonrpc\":\"2.0\",\"id\":51,\"method\":\"tools/call\",",
        "\"params\":{\"name\":\"ask_1c_ai\",\"arguments\":[]}}\n",
        "{\"jsonrpc\":\"2.0\",\"method\":\"notifications/initialized\"}\n",
    ]
    .concat();

    let mut frames = read_frames(input.as_bytes(), 7);
    let Delivery::Act(FrameAction::Respond { id, error }) = deliver_frame(frames.remove(0)) else {
        panic!("a malformed call must be answered");
    };
    assert_eq!(id, RequestId::Number(51));
    assert_eq!(error.code, -32602);
    assert_eq!(error.message, "tools/call parameters are invalid");
    assert!(matches!(
        deliver_frame(frames.remove(0)),
        Delivery::Deliver(_)
    ));
}

#[test]
fn outbound_codec_rejects_oversized_message_without_partial_bytes() {
    let message = response("x".repeat(MAX_OUTBOUND_MESSAGE_BYTES), 1);
    let serialized = serde_json::to_vec(&message).unwrap();
    let mut output = Vec::new();

    assert!(
        !encode_frame(&serialized, MAX_OUTBOUND_MESSAGE_BYTES, &mut output),
        "an oversized response must be rejected"
    );
    assert!(
        output.is_empty(),
        "no partial JSON-RPC response may reach the writer buffer"
    );
}

#[test]
fn outbound_codec_accepts_a_message_at_the_exact_limit() {
    let base_length = serde_json::to_vec(&response(String::new(), 2))
        .expect("base response serializes")
        .len();
    let message = response("x".repeat(MAX_OUTBOUND_MESSAGE_BYTES - base_length), 2);
    let serialized = serde_json::to_vec(&message).expect("boundary response serializes");
    assert_eq!(serialized.len(), MAX_OUTBOUND_MESSAGE_BYTES);
    let mut output = Vec::new();

    assert!(
        encode_frame(&serialized, MAX_OUTBOUND_MESSAGE_BYTES, &mut output),
        "a response at the exact limit must pass"
    );

    assert_eq!(output.len(), MAX_OUTBOUND_MESSAGE_BYTES + 1);
    assert_eq!(output.last(), Some(&b'\n'));
}

#[test]
fn frames_do_not_depend_on_how_the_input_is_cut() {
    let mut reader = BoundedFrameReader::new(4);
    assert!(reader.accept(b"ab").1.is_none());
    assert!(reader.accept(b"cd").1.is_none());
    let (used, frame) = reader.accept(b"\r\nxy");
    assert_eq!(used, 2);
    assert!(matches!(frame, Some(FrameRead::Oversized(bytes)) if bytes == b"abcd"));
    let (used, frame) = reader.accept(b"xy\r\n");
    assert_eq!(used, 4);
    assert!(matches!(frame, Some(FrameRead::Complete(bytes)) if bytes == b"xy"));
    let (used, frame) = reader.accept(b"abcde\nnext");
    assert_eq!(used, 6);
    assert!(matches!(frame, Some(FrameRead::Oversized(bytes)) if bytes == b"abcd"));
    assert!(reader.accept(b"partial").1.is_none());
    assert!(matches!(reader.accept(b"").1, Some(FrameRead::Eof)));
    let (used, frame) = reader.accept(b"\n");
    assert_eq!(used, 1);
    assert!(matches!(frame, Some(FrameRead::Complete(bytes)) if bytes.is_empty()));
}

#[test]
fn empty_frames_are_skipped_and_the_end_shuts_down() {
    assert!(matches!(
        decide_frame(FrameRead::Complete(Vec::new())),
        FrameAction::Skip
    ));
    assert!(matches!(decide_frame(FrameRead::Eof), FrameAction::Shutdown));
}

#[test]
fn undecoded_frames_are_answered_where_they_have_an_identifier() {
    let FrameAction::Respond { id, error } =
        decide_undecoded(br#"{"jsonrpc":"2.0","id":"a","method":"unknown/method","x":1}"#)
    else {
        panic!("a request with an identifier is answered");
    };
    assert_eq!(id, RequestId::Text("a".to_owned()));
    assert_eq!((error.code, error.message), (-32600, "MCP request is invalid"));
    assert_eq!(
        complete_frame_protocol_error(br#"{"id":-3,"method":"tools/call"}"#).map(|answer| answer.2),
        Some("tools/call parameters are invalid")
    );
    assert!(matches!(decide_undecoded(b"not json"), FrameAction::Skip));
    assert!(matches!(decide_undecoded(br#"{"id":null}"#), FrameAction::Skip));
}

#[test]
fn identifiers_are_read_like_the_protocol_layer_reads_them() {
    for text in [
        "0",
        "7",
        "-7",
        "9223372036854775807",
        "9223372036854775808",
        "-9223372036854775808",
        "1.5",
        "1.0",
        "\"text\"",
        "null",
        "true",
        "[]",
        "{}",
    ] {
        let ours = RequestId::from_json(&parse_json(text).unwrap());
        let theirs = serde_json::from_str::<rmcp::model::RequestId>(text).ok();
        let expected = theirs.map(|id| match id {
            rmcp::model::NumberOrString::Number(n) => RequestId::Number(n),
            rmcp::model::NumberOrString::String(text) => RequestId::Text(text.to_string()),
        });
        assert_eq!(ours, expected, "{text}");
    }
}

#[test]
fn only_malformed_tool_calls_are_answered_early() {
    let malformed = |frame: &str| malformed_tool_call_id(frame.as_bytes());
    assert_eq!(
        malformed(r#"{"jsonrpc":"2.0","id":1,"method":"tools/call"}"#),
        Some(RequestId::Number(1))
    );
    assert_eq!(
        malformed(r#"{"jsonrpc":"2.0","id":1,"method":"tools/call","params":{"name":"x"}}"#),
        None
    );
    assert_eq!(malformed(r#"{"jsonrpc":"2.0","id":1,"method":"ping"}"#), None);
    assert_eq!(malformed(r#"{"jsonrpc":"1.0","id":1,"method":"tools/call"}"#), None);
    assert_eq!(malformed(r#"{"jsonrpc":"2.0","method":"tools/call"}"#), None);
    assert_eq!(malformed("[]"), None);
}

#[test]
fn safe_identifiers_follow_the_version_and_end_in_the_prefix() {
    let safe = |prefix: &str| extract_safe_request_id(prefix.as_bytes());
    let seven = Some(RequestId::Number(7));
    assert_eq!(safe(r#"{"jsonrpc":"2.0","id":7,"method":"x"#), seven);
    assert_eq!(safe(" {\t\"jsonrpc\" : \"2.0\" ,\r\n\"id\" : 7 }"), seven);
    assert_eq!(safe(r#"{"method":"a\"b","jsonrpc":"2.0","id":7,"#), seven);
    assert_eq!(
        safe(r#"{"jsonrpc":"2.0","id":"xA","p"#),
        Some(RequestId::Text("xA".to_owned()))
    );
    for unsafe_prefix in [
        r#"{"id":7,"jsonrpc":"2.0","#,
        r#"{"jsonrpc":"2.0","id":7"#,
        r#"{"jsonrpc":"2.0","id":7]"#,
        r#"{"jsonrpc":"1.0","id":7,"#,
        r#"{"jsonrpc":"2.0","params":{},"id":7,"#,
        r#"{"jsonrpc":"2.0","id":null,"#,
        r#"{"jsonrpc":"2.0" "id":7,"#,
        r#"{"jsonrpc":"2.0","id",7,"#,
        r#"{"jsonrpc":"2.0","id":,"#,
        r#"["jsonrpc""#,
        "{",
        "",
    ] {
        assert_eq!(safe(unsafe_prefix), None, "{unsafe_prefix}");
    }
}

#[test]
fn written_frames_are_read_back() {
    let message = br#"{"jsonrpc":"2.0","id":1,"result":{}}"#;
    let mut output = Vec::new();
    assert!(encode_frame(message, message.len(), &mut output));
    assert!(!encode_frame(message, message.len() - 1, &mut output));
    let frames = read_frames(&output, 5);
    assert_eq!(frames.len(), 2);
    assert!(matches!(&frames[0], FrameRead::Complete(bytes) if bytes == message));
}

#[test]
fn a_line_is_dealt_with_by_what_it_is() {
    let line = b"{\"jsonrpc\":\"2.0\",\"id\":9,\"method\":\"ping\"}\n".to_vec();
    let Delivery::Deliver(message) = deliver_line(line.clone()) else {
        panic!("the line holds a message");
    };
    let expected = serde_json::to_value(&message).expect("message");
    assert_eq!(expected["id"], 9);
    assert_eq!(expected["method"], "ping");
    let Delivery::Deliver(same) = deliver_reading(b"?\n".to_vec(), LineReading::Message(message))
    else {
        panic!("a message is delivered");
    };
    assert_eq!(serde_json::to_value(&same).expect("message"), expected);
    assert!(matches!(
        deliver_reading(line.clone(), LineReading::Nothing),
        Delivery::Ignore
    ));
    assert!(matches!(
        deliver_reading(b"?\n".to_vec(), LineReading::Invalid),
        Delivery::Act(FrameAction::Skip)
    ));
}

#[test]
fn every_line_delivers_its_own_message() {
    let input = [
        "{\"jsonrpc\":\"2.0\",\"id\":1,\"method\":\"ping\"}\n",
        "{\"jsonrpc\":\"2.0\",\"id\":2,\"method\":\"ping\"}\r\n",
        "{\"jsonrpc\":\"2.0\",\"id\":3,\"method\":\"ping\"}\n",
    ]
    .concat();
    let frames = read_frames(input.as_bytes(), 5);
    let mut ids = Vec::new();
    for frame in frames {
        if let Delivery::Deliver(ClientJsonRpcMessage::Request(request)) = deliver_frame(frame) {
            ids.push(request.id);
        }
    }
    let expected: Vec<_> = (1..=3).map(rmcp::model::NumberOrString::Number).collect();
    assert_eq!(ids, expected);
}

#[test]
fn lines_are_delivered_ignored_or_answered() {
    let deliver = |line: &str| deliver_line(line.as_bytes().to_vec());
    assert!(matches!(
        deliver("{\"jsonrpc\":\"2.0\",\"id\":7,\"method\":\"ping\"}\n"),
        Delivery::Deliver(ClientJsonRpcMessage::Request(request))
            if request.id == rmcp::model::NumberOrString::Number(7)
    ));
    assert!(matches!(
        deliver("{\"jsonrpc\":\"2.0\",\"method\":\"notifications/unknown\",\"params\":7}\n"),
        Delivery::Ignore
    ));
    let Delivery::Act(FrameAction::Respond { id, error }) =
        deliver("{\"jsonrpc\":\"1.0\",\"id\":\"a\",\"method\":\"ping\"}\n")
    else {
        panic!("an invalid request with an identifier is answered");
    };
    assert_eq!(id, RequestId::Text("a".to_owned()));
    assert_eq!((error.code, error.message), (-32600, "MCP request is invalid"));
    for nameless in ["\n", "not json\n", "{\"jsonrpc\":\"2.0\"}\n"] {
        assert!(
            matches!(deliver(nameless), Delivery::Act(FrameAction::Skip)),
            "{nameless:?}"
        );
    }
    assert!(matches!(
        deliver_frame(FrameRead::Complete(Vec::new())),
        Delivery::Act(FrameAction::Skip)
    ));
    assert!(matches!(
        decide_frame(FrameRead::Complete(b"x".to_vec())),
        FrameAction::Decode(line) if line == b"x\n"
    ));
}
