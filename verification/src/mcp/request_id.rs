//! The identifiers of requests, and how they are found in frames that cannot be used.

use vstd::prelude::*;

use crate::ascii::{
    BACKSLASH,
    CLOSE_BRACE,
    CLOSE_BRACKET,
    COLON,
    COMMA,
    CR,
    LF,
    OPEN_BRACE,
    OPEN_BRACKET,
    QUOTE,
    SPACE,
    TAB,
};
use crate::error::ProtocolFailureKind;
use crate::json::{lookup, Fields, JsonView};
use crate::json::{Json, JsonNumber, JsonObject};
use crate::json_text::{bytes_tree, settled, value_tree};
use crate::json_text::{parse_json_bytes, to_value};
use crate::strings::same_text;

verus! {

/// The identifier of a request.
#[derive(Debug, PartialEq, Eq)]
pub enum RequestId {
    Number(i64),
    Text(String),
}

/// The content of a [`RequestId`].
pub enum RequestIdView {
    Number(i64),
    Text(Seq<char>),
}

impl View for RequestId {
    type V = RequestIdView;

    open spec fn view(&self) -> RequestIdView {
        match self {
            RequestId::Number(n) => RequestIdView::Number(*n),
            RequestId::Text(text) => RequestIdView::Text(text@),
        }
    }
}

/// The content of an optional identifier.
pub open spec fn id_view(id: Option<RequestId>) -> Option<RequestIdView> {
    match id {
        Some(id) => Some(id@),
        None => None,
    }
}

/// The identifier that a JSON value stands for: a text, or an integer of 64 bits.
pub open spec fn id_of_tree(tree: JsonView) -> Option<RequestIdView> {
    match tree {
        JsonView::Number(JsonNumber::Unsigned(n)) => if n <= i64::MAX {
            Some(RequestIdView::Number(n as i64))
        } else {
            None
        },
        JsonView::Number(JsonNumber::Negative(n)) => Some(RequestIdView::Number(n)),
        JsonView::Text(text) => Some(RequestIdView::Text(text)),
        _ => None,
    }
}

impl RequestId {
    /// The identifier that a JSON value stands for.
    pub fn from_json(json: &Json) -> (res: Option<RequestId>)
        ensures
            id_view(res) == id_of_tree(json@),
    {
        match json {
            Json::Number(JsonNumber::Unsigned(n)) => if *n <= i64::MAX as u64 {
                Some(RequestId::Number(*n as i64))
            } else {
                None
            },
            Json::Number(JsonNumber::Negative(n)) => Some(RequestId::Number(*n)),
            Json::Text(text) => Some(RequestId::Text(text.clone())),
            _ => None,
        }
    }
}

/// A JSON value holds the parameters of a tool call.
pub uninterp spec fn are_call_params(tree: JsonView) -> bool;

/// Calls `serde_json::from_value` for `rmcp`'s `CallToolRequestParams`, whose success
/// depends on what the value holds alone.
#[verifier::external_body]
fn reads_as_call_params(value: serde_json::Value) -> (res: bool)
    ensures
        res == are_call_params(value_tree(value)),
{
    serde_json::from_value::<rmcp::model::CallToolRequestParams>(value).is_ok()
}

/// The text that `serde_json` reads from bytes, if they are a JSON string.
pub uninterp spec fn bytes_text(bytes: Seq<u8>) -> Option<Seq<char>>;

/// Calls `serde_json::from_slice` for a `String`, whose result depends on the bytes alone.
#[verifier::external_body]
fn read_text(bytes: &[u8]) -> (res: Option<String>)
    ensures
        match res {
            Some(text) => bytes_text(bytes@) == Some(text@),
            None => bytes_text(bytes@) is None,
        },
{
    serde_json::from_slice::<String>(bytes).ok()
}

/// The identifier that bytes stand for, if they are JSON.
pub open spec fn id_in_bytes(bytes: Seq<u8>) -> Option<RequestIdView> {
    match bytes_tree(bytes) {
        Some(tree) => id_of_tree(tree),
        None => None,
    }
}

/// The request asks for a tool.
pub open spec fn is_tool_call(request: Fields) -> bool {
    lookup(request, "method"@) == Some(JsonView::Text("tools/call"@))
}

/// The identifier of a request.
pub open spec fn request_id(request: Fields) -> Option<RequestIdView> {
    match lookup(request, "id"@) {
        Some(tree) => id_of_tree(tree),
        None => None,
    }
}

/// The identifier of a frame that asks for a tool without valid parameters, by what the
/// frame says as JSON.
pub open spec fn malformed_call(frame: Option<JsonView>) -> Option<RequestIdView> {
    match frame {
        Some(JsonView::Object(request)) => if lookup(request, "jsonrpc"@) == Some(
            JsonView::Text("2.0"@),
        ) && is_tool_call(request) && !(lookup(request, "params"@) matches Some(params)
            && are_call_params(settled(params))) {
            request_id(request)
        } else {
            None
        },
        _ => None,
    }
}

/// How a frame that could not be read as a message is answered, by what it says as JSON.
pub open spec fn refused_frame(frame: Option<JsonView>) -> Option<
    (RequestIdView, ProtocolFailureKind, Seq<char>),
> {
    match frame {
        Some(JsonView::Object(request)) => match request_id(request) {
            Some(id) => if is_tool_call(request) {
                Some((id, ProtocolFailureKind::InvalidParams, "tools/call parameters are invalid"@))
            } else {
                Some((id, ProtocolFailureKind::InvalidRequest, "MCP request is invalid"@))
            },
            None => None,
        },
        _ => None,
    }
}

fn field_is(object: &JsonObject, name: &'static str, text: &'static str) -> (res: bool)
    ensures
        res == (lookup(object@, name@) == Some(JsonView::Text(text@))),
{
    match object.get(name) {
        Some(Json::Text(value)) => same_text(value.as_str(), text),
        _ => false,
    }
}

fn read_request_id(object: &JsonObject) -> (res: Option<RequestId>)
    ensures
        id_view(res) == request_id(object@),
{
    match object.get("id") {
        Some(json) => RequestId::from_json(json),
        None => None,
    }
}

/// The identifier of a frame that asks for a tool without valid parameters.
pub fn malformed_tool_call_id(frame: &[u8]) -> (res: Option<RequestId>)
    ensures
        id_view(res) == malformed_call(bytes_tree(frame@)),
{
    let object: JsonObject = match parse_json_bytes(frame) {
        Some(Json::Object(object)) => object,
        _ => {
            return None;
        },
    };
    if !field_is(&object, "jsonrpc", "2.0") || !field_is(&object, "method", "tools/call") {
        return None;
    }
    let valid: bool = match object.get("params") {
        Some(params) => reads_as_call_params(to_value(params)),
        None => false,
    };
    if valid {
        return None;
    }
    read_request_id(&object)
}

/// How a frame that could not be read as a message is answered.
pub fn complete_frame_protocol_error(frame: &[u8]) -> (res: Option<
    (RequestId, ProtocolFailureKind, &'static str),
>)
    ensures
        match res {
            Some(answer) => refused_frame(bytes_tree(frame@)) == Some(
                (answer.0@, answer.1, answer.2@),
            ),
            None => refused_frame(bytes_tree(frame@)) is None,
        },
{
    let object: JsonObject = match parse_json_bytes(frame) {
        Some(Json::Object(object)) => object,
        _ => {
            return None;
        },
    };
    let tool_call: bool = field_is(&object, "method", "tools/call");
    match read_request_id(&object) {
        Some(id) => if tool_call {
            Some((id, ProtocolFailureKind::InvalidParams, "tools/call parameters are invalid"))
        } else {
            Some((id, ProtocolFailureKind::InvalidRequest, "MCP request is invalid"))
        },
        None => None,
    }
}

/// White space between the parts of JSON.
pub open spec fn is_json_space(byte: u8) -> bool {
    byte == SPACE || byte == TAB || byte == CR || byte == LF
}

/// The byte ends a number or a word.
pub open spec fn ends_plain_value(byte: u8) -> bool {
    byte == COMMA || byte == CLOSE_BRACE || byte == CLOSE_BRACKET || is_json_space(byte)
}

/// The byte at a place, if there is one.
pub open spec fn byte_at(input: Seq<u8>, at: int) -> Option<u8> {
    if 0 <= at < input.len() {
        Some(input[at])
    } else {
        None
    }
}

/// The first place from `at` on without white space.
pub open spec fn after_space(input: Seq<u8>, at: int) -> int
    decreases input.len() - at,
{
    if 0 <= at < input.len() && is_json_space(input[at]) {
        after_space(input, at + 1)
    } else {
        at
    }
}

/// The place after the quote that ends a string, from a place inside it.
pub open spec fn string_rest_end(input: Seq<u8>, at: int, escaped: bool) -> Option<int>
    decreases input.len() - at,
{
    if at < 0 || at >= input.len() {
        None
    } else if escaped {
        string_rest_end(input, at + 1, false)
    } else if input[at] == BACKSLASH {
        string_rest_end(input, at + 1, true)
    } else if input[at] == QUOTE {
        Some(at + 1)
    } else {
        string_rest_end(input, at + 1, false)
    }
}

/// The place after a string that begins at `start`.
pub open spec fn string_end(input: Seq<u8>, start: int) -> Option<int> {
    if byte_at(input, start) == Some(QUOTE) {
        string_rest_end(input, start + 1, false)
    } else {
        None
    }
}

/// The place after a number or a word, from a place inside it.
pub open spec fn plain_end(input: Seq<u8>, at: int) -> int
    decreases input.len() - at,
{
    if 0 <= at < input.len() && !ends_plain_value(input[at]) {
        plain_end(input, at + 1)
    } else {
        at
    }
}

/// The place after a string, a number or a word that begins at `start`.
pub open spec fn simple_value_end(input: Seq<u8>, start: int) -> Option<int> {
    match byte_at(input, start) {
        None => None,
        Some(byte) => if byte == QUOTE {
            string_end(input, start)
        } else if byte == OPEN_BRACE || byte == OPEN_BRACKET || plain_end(input, start) == start {
            None
        } else {
            Some(plain_end(input, start))
        },
    }
}

/// Skipping white space goes forward and stays in the input.
pub proof fn after_space_bounds(input: Seq<u8>, at: int)
    ensures
        after_space(input, at) >= at,
        at <= input.len() ==> after_space(input, at) <= input.len(),
    decreases input.len() - at,
{
    if 0 <= at < input.len() && is_json_space(input[at]) {
        after_space_bounds(input, at + 1);
    }
}

proof fn string_rest_end_bounds(input: Seq<u8>, at: int, escaped: bool)
    ensures
        string_rest_end(input, at, escaped) matches Some(end) ==> at < end <= input.len(),
    decreases input.len() - at,
{
    if 0 <= at < input.len() {
        string_rest_end_bounds(input, at + 1, false);
        string_rest_end_bounds(input, at + 1, true);
    }
}

proof fn plain_end_bounds(input: Seq<u8>, at: int)
    ensures
        plain_end(input, at) >= at,
        0 <= at <= input.len() ==> plain_end(input, at) <= input.len(),
    decreases input.len() - at,
{
    if 0 <= at < input.len() && !ends_plain_value(input[at]) {
        plain_end_bounds(input, at + 1);
    }
}

/// One field of an object: where its name begins and ends, and where its value does.
pub struct FieldPlace {
    pub name: int,
    pub name_end: int,
    pub value: int,
    pub value_end: int,
}

/// The field that stands at or after a place, if its value is a simple one.
pub open spec fn field_at(input: Seq<u8>, at: int) -> Option<FieldPlace> {
    let name = after_space(input, at);
    match string_end(input, name) {
        None => None,
        Some(name_end) => {
            let colon = after_space(input, name_end);
            let value = after_space(input, colon + 1);
            if byte_at(input, colon) != Some(COLON) {
                None
            } else {
                match simple_value_end(input, value) {
                    None => None,
                    Some(value_end) => Some(FieldPlace { name, name_end, value, value_end }),
                }
            }
        },
    }
}

/// The parts of a field follow each other in the input.
pub proof fn field_at_bounds(input: Seq<u8>, at: int)
    requires
        0 <= at,
    ensures
        field_at(input, at) matches Some(place) ==> at <= place.name < place.name_end < place.value
            < place.value_end <= input.len(),
{
    let name = after_space(input, at);
    after_space_bounds(input, at);
    string_rest_end_bounds(input, name + 1, false);
    if let Some(name_end) = string_end(input, name) {
        after_space_bounds(input, name_end);
        let colon = after_space(input, name_end);
        after_space_bounds(input, colon + 1);
        let value = after_space(input, colon + 1);
        string_rest_end_bounds(input, value + 1, false);
        plain_end_bounds(input, value);
    }
}

/// The identifier among the fields of an object from a place on, when the version of the
/// protocol has been named (`versioned`) or not. Only an identifier after the version
/// counts, and only where its field is complete.
pub open spec fn safe_id_from(input: Seq<u8>, at: int, versioned: bool) -> Option<RequestIdView>
    decreases input.len() - at,
{
    proof {
        if at >= 0 {
            field_at_bounds(input, at);
            if let Some(place) = field_at(input, at) {
                after_space_bounds(input, place.value_end);
            }
        }
    }
    if at < 0 || at > input.len() {
        None
    } else {
        match field_at(input, at) {
            None => None,
            Some(place) => {
                let value = input.subrange(place.value, place.value_end);
                let next = after_space(input, place.value_end);
                match bytes_text(input.subrange(place.name, place.name_end)) {
                    None => None,
                    Some(name) => if name == "id"@ && versioned {
                        if byte_at(input, next) == Some(COMMA) || byte_at(input, next) == Some(
                            CLOSE_BRACE,
                        ) {
                            id_in_bytes(value)
                        } else {
                            None
                        }
                    } else if byte_at(input, next) == Some(COMMA) {
                        safe_id_from(
                            input,
                            next + 1,
                            if name == "jsonrpc"@ {
                                bytes_text(value) == Some("2.0"@)
                            } else {
                                versioned
                            },
                        )
                    } else {
                        None
                    },
                }
            },
        }
    }
}

/// The identifier of a request of which only a beginning is known.
pub open spec fn safe_request_id(prefix: Seq<u8>) -> Option<RequestIdView> {
    let open = after_space(prefix, 0);
    if byte_at(prefix, open) == Some(OPEN_BRACE) {
        safe_id_from(prefix, open + 1, false)
    } else {
        None
    }
}

fn skip_json_whitespace(input: &[u8], start: usize) -> (res: usize)
    ensures
        res == after_space(input@, start as int),
        start <= res,
        start <= input@.len() ==> res <= input@.len(),
{
    let mut position: usize = start;
    while position < input.len() && (input[position] == SPACE || input[position] == TAB
        || input[position] == CR || input[position] == LF)
        invariant
            start <= position,
            start <= input@.len() ==> position <= input@.len(),
            after_space(input@, start as int) == after_space(input@, position as int),
        decreases input.len() - position,
    {
        position += 1;
    }
    position
}

fn json_string_end(input: &[u8], start: usize) -> (res: Option<usize>)
    ensures
        match res {
            Some(end) => string_end(input@, start as int) == Some(end as int) && start < end
                <= input@.len(),
            None => string_end(input@, start as int) is None,
        },
{
    if start >= input.len() || input[start] != QUOTE {
        return None;
    }
    let mut escaped: bool = false;
    let mut at: usize = start + 1;
    while at < input.len()
        invariant
            start < at <= input@.len(),
            string_end(input@, start as int) == string_rest_end(input@, at as int, escaped),
        decreases input@.len() - at,
    {
        let byte: u8 = input[at];
        if escaped {
            escaped = false;
        } else if byte == BACKSLASH {
            escaped = true;
        } else if byte == QUOTE {
            return Some(at + 1);
        }
        at += 1;
    }
    None
}

fn simple_json_value_end(input: &[u8], start: usize) -> (res: Option<usize>)
    ensures
        match res {
            Some(end) => simple_value_end(input@, start as int) == Some(end as int) && start < end
                <= input@.len(),
            None => simple_value_end(input@, start as int) is None,
        },
{
    if start >= input.len() {
        return None;
    }
    if input[start] == QUOTE {
        return json_string_end(input, start);
    }
    if input[start] == OPEN_BRACE || input[start] == OPEN_BRACKET {
        return None;
    }
    let mut at: usize = start;
    while at < input.len() && !(input[at] == COMMA || input[at] == CLOSE_BRACE || input[at]
        == CLOSE_BRACKET || input[at] == SPACE || input[at] == TAB || input[at] == CR || input[at]
        == LF)
        invariant
            start <= at <= input@.len(),
            plain_end(input@, start as int) == plain_end(input@, at as int),
        decreases input@.len() - at,
    {
        at += 1;
    }
    if at == start {
        None
    } else {
        Some(at)
    }
}

/// The places of one field, as in [`field_at`].
struct FieldFound {
    name: usize,
    name_end: usize,
    value: usize,
    value_end: usize,
}

fn find_field(input: &[u8], at: usize) -> (res: Option<FieldFound>)
    requires
        at <= input@.len(),
    ensures
        match res {
            Some(found) => field_at(input@, at as int) == Some(
                FieldPlace {
                    name: found.name as int,
                    name_end: found.name_end as int,
                    value: found.value as int,
                    value_end: found.value_end as int,
                },
            ),
            None => field_at(input@, at as int) is None,
        },
{
    let name: usize = skip_json_whitespace(input, at);
    let name_end: usize = match json_string_end(input, name) {
        Some(end) => end,
        None => {
            return None;
        },
    };
    let colon: usize = skip_json_whitespace(input, name_end);
    if colon >= input.len() || input[colon] != COLON {
        return None;
    }
    let value: usize = skip_json_whitespace(input, colon + 1);
    match simple_json_value_end(input, value) {
        Some(value_end) => Some(FieldFound { name, name_end, value, value_end }),
        None => None,
    }
}

/// The identifier of a request of which only a beginning is known.
pub fn extract_safe_request_id(prefix: &[u8]) -> (res: Option<RequestId>)
    ensures
        id_view(res) == safe_request_id(prefix@),
{
    let open: usize = skip_json_whitespace(prefix, 0);
    if open >= prefix.len() || prefix[open] != OPEN_BRACE {
        return None;
    }
    let mut versioned: bool = false;
    let mut position: usize = open + 1;
    loop
        invariant
            position <= prefix@.len(),
            safe_request_id(prefix@) == safe_id_from(prefix@, position as int, versioned),
        decreases prefix@.len() - position,
    {
        proof {
            field_at_bounds(prefix@, position as int);
        }
        let found: FieldFound = match find_field(prefix, position) {
            Some(found) => found,
            None => {
                return None;
            },
        };
        let value: &[u8] = vstd::slice::slice_subrange(prefix, found.value, found.value_end);
        let next: usize = skip_json_whitespace(prefix, found.value_end);
        let name: String = match read_text(
            vstd::slice::slice_subrange(prefix, found.name, found.name_end),
        ) {
            Some(name) => name,
            None => {
                return None;
            },
        };
        if same_text(name.as_str(), "id") && versioned {
            if next < prefix.len() && (prefix[next] == COMMA || prefix[next] == CLOSE_BRACE) {
                return match parse_json_bytes(value) {
                    Some(json) => RequestId::from_json(&json),
                    None => None,
                };
            }
            return None;
        }
        if same_text(name.as_str(), "jsonrpc") {
            versioned =
            match read_text(value) {
                Some(text) => same_text(text.as_str(), "2.0"),
                None => false,
            };
        }
        if next >= prefix.len() || prefix[next] != COMMA {
            return None;
        }
        position = next + 1;
    }
}

proof fn after_space_stays(input: Seq<u8>, more: Seq<u8>, at: int)
    requires
        0 <= at,
        after_space(input, at) < input.len(),
    ensures
        after_space(input + more, at) == after_space(input, at),
    decreases input.len() - at,
{
    after_space_bounds(input, at);
    assert((input + more)[at] == input[at]);
    if is_json_space(input[at]) {
        after_space_stays(input, more, at + 1);
    }
}

proof fn string_rest_end_stays(input: Seq<u8>, more: Seq<u8>, at: int, escaped: bool)
    requires
        string_rest_end(input, at, escaped) is Some,
    ensures
        string_rest_end(input + more, at, escaped) == string_rest_end(input, at, escaped),
    decreases input.len() - at,
{
    assert((input + more)[at] == input[at]);
    if escaped {
        string_rest_end_stays(input, more, at + 1, false);
    } else if input[at] == BACKSLASH {
        string_rest_end_stays(input, more, at + 1, true);
    } else if input[at] != QUOTE {
        string_rest_end_stays(input, more, at + 1, false);
    }
}

proof fn plain_end_stays(input: Seq<u8>, more: Seq<u8>, at: int)
    requires
        0 <= at,
        plain_end(input, at) < input.len(),
    ensures
        plain_end(input + more, at) == plain_end(input, at),
    decreases input.len() - at,
{
    plain_end_bounds(input, at);
    assert((input + more)[at] == input[at]);
    if !ends_plain_value(input[at]) {
        plain_end_stays(input, more, at + 1);
    }
}

proof fn field_at_stays(input: Seq<u8>, more: Seq<u8>, at: int)
    requires
        0 <= at,
        field_at(input, at) matches Some(place) && place.value_end < input.len(),
    ensures
        field_at(input + more, at) == field_at(input, at),
{
    let place = field_at(input, at)->0;
    field_at_bounds(input, at);
    let colon = after_space(input, place.name_end);
    after_space_bounds(input, place.name_end);
    assert((input + more)[place.name] == input[place.name]);
    after_space_stays(input, more, at);
    string_rest_end_stays(input, more, place.name + 1, false);
    after_space_stays(input, more, place.name_end);
    assert((input + more)[colon] == input[colon]);
    after_space_stays(input, more, colon + 1);
    assert((input + more)[place.value] == input[place.value]);
    if input[place.value] == QUOTE {
        string_rest_end_stays(input, more, place.value + 1, false);
    } else {
        plain_end_stays(input, more, place.value);
    }
}

proof fn safe_id_from_stays(input: Seq<u8>, more: Seq<u8>, at: int, versioned: bool)
    requires
        0 <= at,
        safe_id_from(input, at, versioned) is Some,
    ensures
        safe_id_from(input + more, at, versioned) == safe_id_from(input, at, versioned),
    decreases input.len() - at,
{
    let place = field_at(input, at)->0;
    field_at_bounds(input, at);
    after_space_bounds(input, place.value_end);
    let next = after_space(input, place.value_end);
    assert(next < input.len());
    field_at_stays(input, more, at);
    after_space_stays(input, more, place.value_end);
    assert((input + more)[next] == input[next]);
    let whole = input + more;
    assert(whole.subrange(place.name, place.name_end) =~= input.subrange(
        place.name,
        place.name_end,
    ));
    assert(whole.subrange(place.value, place.value_end) =~= input.subrange(
        place.value,
        place.value_end,
    ));
    let name = bytes_text(input.subrange(place.name, place.name_end))->0;
    if !(name == "id"@ && versioned) {
        safe_id_from_stays(
            input,
            more,
            next + 1,
            if name == "jsonrpc"@ {
                bytes_text(input.subrange(place.value, place.value_end)) == Some("2.0"@)
            } else {
                versioned
            },
        );
    }
}

/// An identifier that is found in the beginning of a request is that of the whole.
pub proof fn safe_ids_are_final(prefix: Seq<u8>, more: Seq<u8>)
    requires
        safe_request_id(prefix) is Some,
    ensures
        safe_request_id(prefix + more) == safe_request_id(prefix),
{
    let open = after_space(prefix, 0);
    after_space_bounds(prefix, 0);
    after_space_stays(prefix, more, 0);
    assert((prefix + more)[open] == prefix[open]);
    safe_id_from_stays(prefix, more, open + 1, false);
}

/// An identifier is a text as it is or a whole number with its value, as far as it fits 64
/// bits; nothing else is one.
pub proof fn identifiers_keep_their_value(tree: JsonView)
    ensures
        match id_of_tree(tree) {
            Some(RequestIdView::Text(text)) => tree == JsonView::Text(text),
            Some(RequestIdView::Number(n)) => tree matches JsonView::Number(number) && match number {
                JsonNumber::Unsigned(value) => value == n,
                JsonNumber::Negative(value) => value == n,
                JsonNumber::Float(_) => false,
            },
            None => !(tree is Text) && !(tree matches JsonView::Number(JsonNumber::Negative(_)))
                && !(tree matches JsonView::Number(JsonNumber::Unsigned(value)) && value
                <= i64::MAX),
        },
{
}

/// A frame that asks for a tool without valid parameters is answered under its own
/// identifier; one whose parameters are valid, or that asks for something else, is not
/// held up.
pub proof fn malformed_calls_are_found(request: Fields)
    ensures
        ({
            let asks = lookup(request, "jsonrpc"@) == Some(JsonView::Text("2.0"@)) && lookup(
                request,
                "method"@,
            ) == Some(JsonView::Text("tools/call"@));
            let valid = lookup(request, "params"@) matches Some(params) && are_call_params(
                settled(params),
            );
            let found = malformed_call(Some(JsonView::Object(request)));
            &&& !asks || valid ==> found is None
            &&& asks && !valid ==> (lookup(request, "id"@) matches Some(JsonView::Text(text))
                ==> found == Some(RequestIdView::Text(text)))
            &&& asks && !valid ==> (lookup(request, "id"@) matches Some(
                JsonView::Number(JsonNumber::Unsigned(n)),
            ) ==> n <= i64::MAX ==> found == Some(RequestIdView::Number(n as i64)))
            &&& asks && !valid && lookup(request, "id"@) is None ==> found is None
        }),
{
}

/// A frame that is no message is answered under its own identifier: as one with invalid
/// parameters where it asks for a tool, else as an invalid request. Without an identifier
/// it is not answered.
pub proof fn refused_frames_are_answered_under_their_identifier(request: Fields)
    ensures
        ({
            let asks = lookup(request, "method"@) == Some(JsonView::Text("tools/call"@));
            match refused_frame(Some(JsonView::Object(request))) {
                Some((id, kind, message)) => {
                    &&& lookup(request, "id"@) matches Some(tree) && id_of_tree(tree) == Some(id)
                    &&& kind == (if asks {
                        ProtocolFailureKind::InvalidParams
                    } else {
                        ProtocolFailureKind::InvalidRequest
                    })
                },
                None => lookup(request, "id"@) is None || id_of_tree(lookup(request, "id"@)->0)
                    is None,
            }
        }),
        refused_frame(None) is None,
        malformed_call(None) is None,
{
}

/// At this place of the input stands a field of this name, whose value is at these bytes.
pub open spec fn stands_at(input: Seq<u8>, at: int, name: Seq<char>, value: Seq<u8>) -> bool {
    field_at(input, at) matches Some(place) && bytes_text(
        input.subrange(place.name, place.name_end),
    ) == Some(name) && input.subrange(place.value, place.value_end) == value
}

proof fn a_safe_id_stands_in_the_input(input: Seq<u8>, at: int, versioned: bool)
    requires
        0 <= at,
        safe_id_from(input, at, versioned) is Some,
    ensures
        exists|q: int, value: Seq<u8>|
            at <= q && #[trigger] stands_at(input, q, "id"@, value) && id_in_bytes(value)
                == safe_id_from(input, at, versioned) && (versioned || exists|
                p: int,
                version: Seq<u8>,
            |
                at <= p < q && #[trigger] stands_at(input, p, "jsonrpc"@, version) && bytes_text(
                    version,
                ) == Some("2.0"@)),
    decreases input.len() - at,
{
    let place = field_at(input, at)->0;
    field_at_bounds(input, at);
    after_space_bounds(input, place.value_end);
    let next = after_space(input, place.value_end);
    let value = input.subrange(place.value, place.value_end);
    let name = bytes_text(input.subrange(place.name, place.name_end))->0;
    assert(stands_at(input, at, name, value));
    if !(name == "id"@ && versioned) {
        let then = if name == "jsonrpc"@ {
            bytes_text(value) == Some("2.0"@)
        } else {
            versioned
        };
        a_safe_id_stands_in_the_input(input, next + 1, then);
        let (q, found) = choose|q: int, found: Seq<u8>|
            next + 1 <= q && #[trigger] stands_at(input, q, "id"@, found) && id_in_bytes(found)
                == safe_id_from(input, next + 1, then) && (then || exists|
                p: int,
                version: Seq<u8>,
            |
                next + 1 <= p < q && #[trigger] stands_at(input, p, "jsonrpc"@, version)
                    && bytes_text(version) == Some("2.0"@));
        assert(stands_at(input, q, "id"@, found));
        if !versioned {
            if then {
                assert(stands_at(input, at, "jsonrpc"@, value));
            } else {
                let (p, version) = choose|p: int, version: Seq<u8>|
                    next + 1 <= p < q && #[trigger] stands_at(input, p, "jsonrpc"@, version)
                        && bytes_text(version) == Some("2.0"@);
                assert(stands_at(input, p, "jsonrpc"@, version));
            }
        }
    }
}

/// An identifier that is found in the beginning of a request stands there in a field named
/// `id`, after a field that names version 2.0 of the protocol, in an object.
pub proof fn safe_ids_stand_after_the_version(prefix: Seq<u8>)
    requires
        safe_request_id(prefix) is Some,
    ensures
        byte_at(prefix, after_space(prefix, 0)) == Some(OPEN_BRACE),
        exists|p: int, q: int, version: Seq<u8>, value: Seq<u8>|
            p < q && #[trigger] stands_at(prefix, p, "jsonrpc"@, version) && bytes_text(version)
                == Some("2.0"@) && #[trigger] stands_at(prefix, q, "id"@, value) && id_in_bytes(
                value,
            ) == safe_request_id(prefix),
{
    let open = after_space(prefix, 0);
    after_space_bounds(prefix, 0);
    a_safe_id_stands_in_the_input(prefix, open + 1, false);
}

/// Between the parts of JSON spaces, tabs and line ends are skipped, all of them and
/// nothing else.
pub proof fn white_space_is_skipped(input: Seq<u8>, at: int)
    requires
        0 <= at <= input.len(),
    ensures
        ({
            let end = after_space(input, at);
            &&& at <= end <= input.len()
            &&& forall|k: int|
                at <= k < end ==> (#[trigger] input[k] == 32 || input[k] == 9 || input[k] == 13
                    || input[k] == 10)
            &&& end < input.len() ==> input[end] != 32 && input[end] != 9 && input[end] != 13
                && input[end] != 10
        }),
    decreases input.len() - at,
{
    if at < input.len() && is_json_space(input[at]) {
        white_space_is_skipped(input, at + 1);
    }
}

/// A number or a word goes on to the next comma, closing bracket or white space.
pub proof fn plain_values_end_where_they_are_closed(input: Seq<u8>, at: int)
    requires
        0 <= at <= input.len(),
    ensures
        ({
            let end = plain_end(input, at);
            &&& at <= end <= input.len()
            &&& forall|k: int|
                at <= k < end ==> (#[trigger] input[k] != 44 && input[k] != 125 && input[k] != 93
                    && input[k] != 32 && input[k] != 9 && input[k] != 13 && input[k] != 10)
            &&& end < input.len() ==> input[end] == 44 || input[end] == 125 || input[end] == 93
                || input[end] == 32 || input[end] == 9 || input[end] == 13 || input[end] == 10
        }),
    decreases input.len() - at,
{
    if at < input.len() && !ends_plain_value(input[at]) {
        plain_values_end_where_they_are_closed(input, at + 1);
    }
}

proof fn plain_strings_end(input: Seq<u8>, at: int, end: int)
    requires
        0 <= at <= end < input.len(),
        forall|k: int| at <= k < end ==> #[trigger] input[k] != 34 && input[k] != 92,
        input[end] == 34,
    ensures
        string_rest_end(input, at, false) == Some(end + 1),
    decreases end - at,
{
    if at < end {
        assert(input[at] != 34 && input[at] != 92);
        plain_strings_end(input, at + 1, end);
    }
}

/// A string goes on to its closing quote; a quote after a backslash does not close it.
pub proof fn strings_end_at_their_quote(input: Seq<u8>, start: int, end: int)
    requires
        0 <= start < end < input.len(),
        input[start] == 34,
        forall|k: int| start < k < end ==> #[trigger] input[k] != 34 && input[k] != 92,
    ensures
        input[end] == 34 ==> string_end(input, start) == Some(end + 1),
        input[end] == 92 && end + 1 < input.len() ==> string_end(input, start) == string_rest_end(
            input,
            end + 2,
            false,
        ),
{
    if input[end] == 34 {
        plain_strings_end(input, start + 1, end);
    } else if input[end] == 92 && end + 1 < input.len() {
        plain_strings_go_on(input, start + 1, end);
        reveal_with_fuel(string_rest_end, 3);
    }
}

proof fn plain_strings_go_on(input: Seq<u8>, at: int, end: int)
    requires
        0 <= at <= end < input.len(),
        forall|k: int| at <= k < end ==> #[trigger] input[k] != 34 && input[k] != 92,
    ensures
        string_rest_end(input, at, false) == string_rest_end(input, end, false),
    decreases end - at,
{
    if at < end {
        assert(input[at] != 34 && input[at] != 92);
        plain_strings_go_on(input, at + 1, end);
    }
}

/// A string, a number or a word is found as the value of a field; an object or an array
/// is not.
pub proof fn simple_fields_are_found(input: Seq<u8>, at: int, name_end: int, value_end: int)
    requires
        0 <= at < name_end,
        name_end + 2 < value_end < input.len(),
        input[at] == 34,
        forall|k: int| at < k < name_end ==> #[trigger] input[k] != 34 && input[k] != 92,
        input[name_end] == 34,
        input[name_end + 1] == 58,
        forall|k: int|
            name_end + 1 < k < value_end ==> '0' as u8 <= #[trigger] input[k] <= '9' as u8,
        input[value_end] == 44 || input[value_end] == 125,
    ensures
        field_at(input, at) == Some(
            FieldPlace { name: at, name_end: name_end + 1, value: name_end + 2, value_end },
        ),
{
    strings_end_at_their_quote(input, at, name_end);
    let value = name_end + 2;
    assert('0' as u8 <= input[value] <= '9' as u8);
    plain_values_end_where_they_are_closed(input, value);
    let end = plain_end(input, value);
    assert(after_space(input, at) == at);
    assert(after_space(input, name_end + 1) == name_end + 1);
    assert(after_space(input, value) == value);
    if end < value_end {
        if end < value {
            assert(false);
        }
        assert('0' as u8 <= input[end] <= '9' as u8);
        assert(false);
    }
    if end > value_end {
        assert(input[value_end] != 44 && input[value_end] != 125);
        assert(false);
    }
}

/// An object or an array is no simple value, and neither is nothing.
pub proof fn nested_values_are_not_followed(input: Seq<u8>, start: int)
    ensures
        byte_at(input, start) == Some(123u8) || byte_at(input, start) == Some(91u8) || byte_at(
            input,
            start,
        ) == Some(44u8) || byte_at(input, start) == Some(125u8) || byte_at(input, start) is None
            ==> simple_value_end(input, start) is None,
{
}

/// An identifier in a complete field after the version is found, whatever simple fields
/// stand before, between and after them.
pub proof fn ids_after_the_version_are_found(input: Seq<u8>, at: int, versioned: bool)
    requires
        0 <= at <= input.len(),
        field_at(input, at) is Some,
        bytes_text(
            input.subrange(field_at(input, at)->0.name, field_at(input, at)->0.name_end),
        ) is Some,
    ensures
        ({
            let place = field_at(input, at)->0;
            let name = bytes_text(input.subrange(place.name, place.name_end))->0;
            let value = input.subrange(place.value, place.value_end);
            let next = after_space(input, place.value_end);
            let found = safe_id_from(input, at, versioned);
            &&& name == "id"@ && versioned && (byte_at(input, next) == Some(44u8) || byte_at(
                input,
                next,
            ) == Some(125u8)) ==> found == id_in_bytes(value)
            &&& name == "jsonrpc"@ && bytes_text(value) == Some("2.0"@) && byte_at(input, next)
                == Some(44u8) ==> found == safe_id_from(input, next + 1, true)
            &&& name == "jsonrpc"@ && bytes_text(value) != Some("2.0"@) && byte_at(input, next)
                == Some(44u8) ==> found == safe_id_from(input, next + 1, false)
            &&& name != "jsonrpc"@ && (name != "id"@ || !versioned) && byte_at(input, next) == Some(
                44u8,
            ) ==> found == safe_id_from(input, next + 1, versioned)
            &&& byte_at(input, next) is None ==> found is None
        }),
{
    reveal_strlit("id");
    reveal_strlit("jsonrpc");
    assert("id"@.len() == 2 && "jsonrpc"@.len() == 7);
}

/// The fields of a request are looked through from its opening brace on.
pub proof fn requests_are_objects(prefix: Seq<u8>)
    requires
        prefix.len() > 0,
        prefix[0] != 32 && prefix[0] != 9 && prefix[0] != 13 && prefix[0] != 10,
    ensures
        prefix[0] == 123 ==> safe_request_id(prefix) == safe_id_from(prefix, 1, false),
        prefix[0] != 123 ==> safe_request_id(prefix) is None,
        safe_request_id(Seq::empty()) is None,
{
}

} // verus!
