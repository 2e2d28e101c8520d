//! The fields of the events that the service sends.

use vstd::prelude::*;

use crate::error::{caused_protocol_breach, limit_breach, protocol_breach, FailureView};
use crate::error::{ToolFailure, ToolFailureKind};
use crate::json::{array_holds_items, array_view, lookup, Fields, JsonView};
use crate::json::{duplicate_all, Json, JsonObject};
use crate::json_text::parse_json;
use crate::json_text::text_tree;
use crate::limits::TOOL_CALLS_PER_MESSAGE_MAX;
use crate::naparnik::response::RenderedToolResult;
use crate::naparnik::response::{rendered_views, RenderedView};
use crate::naparnik::tool_roundtrip::{call_views, calls_well_formed, ToolCallView};
use crate::naparnik::tool_roundtrip::{validate_tool_calls, ToolCall};
use crate::strings::same_text;

verus! {

/// A field that may hold a text.
pub open spec fn text_field(fields: Fields, name: Seq<char>) -> Result<
    Option<Seq<char>>,
    FailureView,
> {
    match lookup(fields, name) {
        None => Ok(None),
        Some(JsonView::Null) => Ok(None),
        Some(JsonView::Text(text)) => Ok(Some(text)),
        Some(_) => Err(protocol_breach("an SSE event has an invalid string field"@)),
    }
}

/// A field that may hold an object.
pub open spec fn object_field(fields: Fields, name: Seq<char>) -> Result<
    Option<Fields>,
    FailureView,
> {
    match lookup(fields, name) {
        None => Ok(None),
        Some(JsonView::Null) => Ok(None),
        Some(JsonView::Object(object)) => Ok(Some(object)),
        Some(_) => Err(protocol_breach("an SSE event has an invalid object field"@)),
    }
}

/// A field that must hold a text of at least one character.
pub open spec fn nonempty_text(fields: Fields, name: Seq<char>) -> Option<Seq<char>> {
    match lookup(fields, name) {
        Some(JsonView::Text(text)) => if text.len() > 0 {
            Some(text)
        } else {
            None
        },
        _ => None,
    }
}

/// The arguments of a call that were sent as text, by what the text says as JSON.
pub open spec fn decoded_arguments(tree: Option<JsonView>) -> Result<Fields, FailureView> {
    match tree {
        None => Err(caused_protocol_breach("internal tool arguments contain invalid JSON"@)),
        Some(JsonView::Object(arguments)) => Ok(arguments),
        Some(_) => Err(protocol_breach("internal tool arguments must decode to a JSON object"@)),
    }
}

/// The arguments of a call.
pub open spec fn call_arguments(function: Fields) -> Result<Fields, FailureView> {
    match lookup(function, "arguments"@) {
        Some(JsonView::Object(arguments)) => Ok(arguments),
        Some(JsonView::Text(encoded)) => decoded_arguments(text_tree(encoded)),
        _ => Err(protocol_breach("internal tool arguments must be an object or a JSON string"@)),
    }
}

/// One call that follows the calls `earlier`.
pub open spec fn one_call(item: JsonView, earlier: Seq<ToolCallView>) -> Result<
    ToolCallView,
    FailureView,
> {
    match item {
        JsonView::Object(fields) => match nonempty_text(fields, "id"@) {
            None => Err(protocol_breach("an internal tool call has an invalid string field"@)),
            Some(id) => if exists|k: int| 0 <= k < earlier.len() && (#[trigger] earlier[k]).id
                == id {
                Err(protocol_breach("internal tool call identifiers must be unique"@))
            } else {
                match lookup(fields, "function"@) {
                    Some(JsonView::Object(function)) => match nonempty_text(function, "name"@) {
                        None => Err(
                            protocol_breach("an internal tool call has an invalid string field"@),
                        ),
                        Some(name) => match call_arguments(function) {
                            Err(failure) => Err(failure),
                            Ok(arguments) => Ok(ToolCallView { id, name, arguments }),
                        },
                    },
                    _ => Err(
                        protocol_breach("an internal tool call requires a function object"@),
                    ),
                }
            },
        },
        _ => Err(protocol_breach("an internal tool call must be an object"@)),
    }
}

/// The calls in a list of items, up to the first that is invalid.
pub open spec fn calls_of_items(items: Seq<JsonView>) -> Result<Seq<ToolCallView>, FailureView>
    decreases items.len(),
{
    if items.len() == 0 {
        Ok(Seq::empty())
    } else {
        match calls_of_items(items.drop_last()) {
            Err(failure) => Err(failure),
            Ok(earlier) => match one_call(items.last(), earlier) {
                Err(failure) => Err(failure),
                Ok(call) => Ok(earlier.push(call)),
            },
        }
    }
}

/// The calls that a `tool_calls` field lists.
pub open spec fn listed_calls(value: JsonView) -> Result<Seq<ToolCallView>, FailureView> {
    match value {
        JsonView::Array(items) => if items.len() > TOOL_CALLS_PER_MESSAGE_MAX {
            Err(limit_breach("the internal tool call count exceeds the limit"@))
        } else {
            calls_of_items(items)
        },
        _ => Err(protocol_breach("the internal tool_calls field must be an array"@)),
    }
}

/// What one item of `render_info` shows.
pub open spec fn rendered_item(fields: Fields) -> RenderedView {
    RenderedView {
        markdown: match lookup(fields, "response_markdown"@) {
            Some(JsonView::Text(text)) => text,
            _ => Seq::empty(),
        },
        details: match lookup(fields, "details"@) {
            Some(JsonView::Object(details)) => match lookup(details, "response_details"@) {
                Some(JsonView::Array(items)) => items,
                _ => Seq::empty(),
            },
            _ => Seq::empty(),
        },
    }
}

/// What the objects among the items show, in order.
pub open spec fn rendered_items(items: Seq<JsonView>) -> Seq<RenderedView>
    decreases items.len(),
{
    if items.len() == 0 {
        Seq::empty()
    } else {
        match items.last() {
            JsonView::Object(fields) => rendered_items(items.drop_last()).push(
                rendered_item(fields),
            ),
            _ => rendered_items(items.drop_last()),
        }
    }
}

/// What a `render_info` field shows.
pub open spec fn rendered_info(info: Option<JsonView>) -> Result<Seq<RenderedView>, FailureView> {
    match info {
        None => Ok(Seq::empty()),
        Some(JsonView::Null) => Ok(Seq::empty()),
        Some(JsonView::Array(items)) => Ok(rendered_items(items)),
        Some(_) => Err(protocol_breach("a tool SSE event contains invalid render_info"@)),
    }
}

/// A breach of the protocol by the service.
pub fn protocol_tool_failure(message: &'static str) -> (res: ToolFailure)
    ensures
        res@ == protocol_breach(message@),
{
    ToolFailure::new(ToolFailureKind::UpstreamProtocol, message, false)
}

/// Reads a field that may hold a text.
pub fn optional_string<'a>(object: &'a JsonObject, name: &'static str) -> (res: Result<
    Option<&'a str>,
    ToolFailure,
>)
    ensures
        match res {
            Ok(Some(text)) => text_field(object@, name@) == Ok::<_, FailureView>(Some(text@)),
            Ok(None) => text_field(object@, name@) == Ok::<Option<Seq<char>>, FailureView>(None),
            Err(failure) => text_field(object@, name@) == Err::<Option<Seq<char>>, _>(failure@),
        },
{
    match object.get(name) {
        None | Some(Json::Null) => Ok(None),
        Some(Json::Text(value)) => Ok(Some(value.as_str())),
        Some(_) => Err(protocol_tool_failure("an SSE event has an invalid string field")),
    }
}

/// Reads a field that may hold an object.
pub fn optional_object<'a>(object: &'a JsonObject, name: &'static str) -> (res: Result<
    Option<&'a JsonObject>,
    ToolFailure,
>)
    ensures
        match res {
            Ok(Some(value)) => object_field(object@, name@) == Ok::<_, FailureView>(Some(value@)),
            Ok(None) => object_field(object@, name@) == Ok::<Option<Fields>, FailureView>(None),
            Err(failure) => object_field(object@, name@) == Err::<Option<Fields>, _>(failure@),
        },
{
    match object.get(name) {
        None | Some(Json::Null) => Ok(None),
        Some(Json::Object(value)) => Ok(Some(value)),
        Some(_) => Err(protocol_tool_failure("an SSE event has an invalid object field")),
    }
}

/// Reads a field that must hold a text of at least one character.
pub fn required_nonempty_string<'a>(object: &'a JsonObject, name: &'static str) -> (res: Result<
    &'a str,
    ToolFailure,
>)
    ensures
        match res {
            Ok(text) => nonempty_text(object@, name@) == Some(text@),
            Err(failure) => nonempty_text(object@, name@) is None && failure@ == protocol_breach(
                "an internal tool call has an invalid string field"@,
            ),
        },
{
    match object.get(name) {
        Some(Json::Text(value)) => {
            if !value.as_str().is_empty() {
                return Ok(value.as_str());
            }
        },
        _ => {},
    }
    Err(protocol_tool_failure("an internal tool call has an invalid string field"))
}

/// The arguments that a text holds, by what it says as JSON.
pub fn decode_tool_arguments(parsed: Option<Json>) -> (res: Result<JsonObject, ToolFailure>)
    ensures
        match res {
            Ok(arguments) => decoded_arguments(
                match parsed {
                    Some(json) => Some(json@),
                    None => None,
                },
            ) == Ok::<_, FailureView>(arguments@),
            Err(failure) => decoded_arguments(
                match parsed {
                    Some(json) => Some(json@),
                    None => None,
                },
            ) == Err::<Fields, _>(failure@),
        },
{
    match parsed {
        None => Err(
            ToolFailure::with_cause(
                ToolFailureKind::UpstreamProtocol,
                "internal tool arguments contain invalid JSON",
                false,
                (),
            ),
        ),
        Some(Json::Object(arguments)) => Ok(arguments),
        Some(_) => Err(
            protocol_tool_failure("internal tool arguments must decode to a JSON object"),
        ),
    }
}

/// Reads the arguments of a call.
pub fn parse_tool_arguments(function: &JsonObject) -> (res: Result<JsonObject, ToolFailure>)
    ensures
        match res {
            Ok(arguments) => call_arguments(function@) == Ok::<_, FailureView>(arguments@),
            Err(failure) => call_arguments(function@) == Err::<Fields, _>(failure@),
        },
{
    match function.get("arguments") {
        Some(Json::Object(arguments)) => Ok(arguments.duplicate()),
        Some(Json::Text(encoded)) => decode_tool_arguments(parse_json(encoded.as_str())),
        _ => Err(
            protocol_tool_failure("internal tool arguments must be an object or a JSON string"),
        ),
    }
}

fn parse_one_call(value: &Json, earlier: &Vec<ToolCall>) -> (res: Result<ToolCall, ToolFailure>)
    ensures
        match res {
            Ok(call) => one_call(value@, call_views(earlier@)) == Ok::<_, FailureView>(call@),
            Err(failure) => one_call(value@, call_views(earlier@)) == Err::<ToolCallView, _>(
                failure@,
            ),
        },
{
    let ghost views: Seq<ToolCallView> = call_views(earlier@);
    let object: &JsonObject = match value {
        Json::Object(object) => object,
        _ => {
            return Err(protocol_tool_failure("an internal tool call must be an object"));
        },
    };
    let id: &str = match required_nonempty_string(object, "id") {
        Ok(id) => id,
        Err(failure) => {
            return Err(failure);
        },
    };
    let mut k: usize = 0;
    while k < earlier.len()
        invariant
            k <= earlier@.len(),
            views == call_views(earlier@),
            value@ == JsonView::Object(object@),
            nonempty_text(object@, "id"@) == Some(id@),
            forall|n: int| 0 <= n < k ==> (#[trigger] views[n]).id != id@,
        decreases earlier@.len() - k,
    {
        assert(views[k as int] == earlier@[k as int]@);
        if same_text(earlier[k].id(), id) {
            return Err(protocol_tool_failure("internal tool call identifiers must be unique"));
        }
        k += 1;
    }
    let function: &JsonObject = match object.get("function") {
        Some(Json::Object(function)) => function,
        _ => {
            return Err(protocol_tool_failure("an internal tool call requires a function object"));
        },
    };
    let name: &str = match required_nonempty_string(function, "name") {
        Ok(name) => name,
        Err(failure) => {
            return Err(failure);
        },
    };
    match parse_tool_arguments(function) {
        Ok(arguments) => Ok(ToolCall::new(id.to_owned(), name.to_owned(), arguments)),
        Err(failure) => Err(failure),
    }
}

/// A list that was read call by call is well formed.
proof fn read_calls_are_well_formed(items: Seq<JsonView>)
    ensures
        calls_of_items(items) is Ok ==> calls_of_items(items)->Ok_0.len() == items.len()
            && calls_well_formed(calls_of_items(items)->Ok_0),
    decreases items.len(),
{
    if items.len() > 0 {
        read_calls_are_well_formed(items.drop_last());
    }
}

/// An error among the first items is an error of the whole list.
proof fn first_error_stands(items: Seq<JsonView>, count: int)
    requires
        0 <= count <= items.len(),
        calls_of_items(items.take(count)) is Err,
    ensures
        calls_of_items(items) == calls_of_items(items.take(count)),
    decreases items.len(),
{
    if count == items.len() {
        assert(items.take(count) =~= items);
    } else {
        assert(items.drop_last().take(count) =~= items.take(count));
        first_error_stands(items.drop_last(), count);
    }
}

/// Reads the calls that a `tool_calls` field lists.
pub fn parse_tool_calls(value: &Json) -> (res: Result<Vec<ToolCall>, ToolFailure>)
    ensures
        match res {
            Ok(calls) => listed_calls(value@) == Ok::<_, FailureView>(call_views(calls@)),
            Err(failure) => listed_calls(value@) == Err::<Seq<ToolCallView>, _>(failure@),
        },
{
    let array: &Vec<Json> = match value {
        Json::Array(array) => array,
        _ => {
            return Err(protocol_tool_failure("the internal tool_calls field must be an array"));
        },
    };
    proof {
        array_holds_items(*array);
    }
    if array.len() > TOOL_CALLS_PER_MESSAGE_MAX {
        return Err(
            ToolFailure::new(
                ToolFailureKind::LimitExceeded,
                "the internal tool call count exceeds the limit",
                false,
            ),
        );
    }
    let ghost items: Seq<JsonView> = array_view(array@);
    let mut calls: Vec<ToolCall> = Vec::new();
    let mut i: usize = 0;
    assert(call_views(calls@) =~= Seq::empty());
    while i < array.len()
        invariant
            i <= array@.len() <= TOOL_CALLS_PER_MESSAGE_MAX,
            items == array_view(array@),
            value@ == JsonView::Array(items),
            calls_of_items(items.take(i as int)) == Ok::<_, FailureView>(call_views(calls@)),
        decreases array@.len() - i,
    {
        assert(items.take(i + 1).drop_last() =~= items.take(i as int));
        let ghost earlier: Seq<ToolCall> = calls@;
        match parse_one_call(&array[i], &calls) {
            Ok(call) => {
                calls.push(call);
                assert(call_views(calls@) =~= call_views(earlier).push(call@));
            },
            Err(failure) => {
                proof {
                    first_error_stands(items, i + 1);
                }
                return Err(failure);
            },
        }
        i += 1;
    }
    proof {
        assert(items.take(items.len() as int) =~= items);
        read_calls_are_well_formed(items);
    }
    match validate_tool_calls(calls.as_slice()) {
        Ok(_) => Ok(calls),
        Err(failure) => Err(failure),
    }
}

fn parse_rendered_item(item: &JsonObject) -> (res: RenderedToolResult)
    ensures
        res@ == rendered_item(item@),
{
    let response_markdown: String = match item.get("response_markdown") {
        Some(Json::Text(text)) => text.clone(),
        _ => String::new(),
    };
    let mut response_details: Vec<Json> = Vec::new();
    proof {
        assert(array_view(response_details@) =~= Seq::empty());
    }
    match item.get("details") {
        Some(Json::Object(details)) => match details.get("response_details") {
            Some(Json::Array(items)) => {
                proof {
                    array_holds_items(*items);
                }
                response_details = duplicate_all(items);
            },
            _ => {},
        },
        _ => {},
    }
    RenderedToolResult::new(response_markdown, response_details)
}

/// Reads what a `render_info` field shows.
pub fn parse_rendered_tool_results(render_info: Option<&Json>) -> (res: Result<
    Vec<RenderedToolResult>,
    ToolFailure,
>)
    ensures
        ({
            let info = match render_info {
                Some(json) => Some(json@),
                None => None,
            };
            match res {
                Ok(results) => rendered_info(info) == Ok::<_, FailureView>(
                    rendered_views(results@),
                ),
                Err(failure) => rendered_info(info) == Err::<Seq<RenderedView>, _>(failure@),
            }
        }),
{
    let mut results: Vec<RenderedToolResult> = Vec::new();
    assert(rendered_views(results@) =~= Seq::empty());
    let items: &Vec<Json> = match render_info {
        None | Some(Json::Null) => {
            return Ok(results);
        },
        Some(Json::Array(items)) => items,
        Some(_) => {
            return Err(protocol_tool_failure("a tool SSE event contains invalid render_info"));
        },
    };
    proof {
        array_holds_items(*items);
    }
    let ghost views: Seq<JsonView> = array_view(items@);
    let mut i: usize = 0;
    while i < items.len()
        invariant
            i <= items@.len(),
            views == array_view(items@),
            rendered_views(results@) == rendered_items(views.take(i as int)),
        decreases items@.len() - i,
    {
        assert(views.take(i + 1).drop_last() =~= views.take(i as int));
        let ghost earlier: Seq<RenderedToolResult> = results@;
        match &items[i] {
            Json::Object(item) => {
                let result: RenderedToolResult = parse_rendered_item(item);
                results.push(result);
                assert(rendered_views(results@) =~= rendered_views(earlier).push(result@));
            },
            _ => {},
        }
        i += 1;
    }
    assert(views.take(views.len() as int) =~= views);
    Ok(results)
}

/// The item is a call with this content: its identifier and its function's name as they
/// stand in it, and its arguments as they stand in it or in the JSON text that it holds.
pub open spec fn says_call(item: JsonView, call: ToolCallView) -> bool {
    item matches JsonView::Object(fields) && {
        &&& lookup(fields, "id"@) == Some(JsonView::Text(call.id))
        &&& lookup(fields, "function"@) matches Some(JsonView::Object(function)) && {
            &&& lookup(function, "name"@) == Some(JsonView::Text(call.name))
            &&& lookup(function, "arguments"@) == Some(JsonView::Object(call.arguments)) || (lookup(
                function,
                "arguments"@,
            ) matches Some(JsonView::Text(encoded)) && text_tree(encoded) == Some(
                JsonView::Object(call.arguments),
            ))
        }
    }
}

proof fn items_say_their_calls(items: Seq<JsonView>)
    ensures
        calls_of_items(items) matches Ok(calls) ==> calls.len() == items.len() && (forall|i: int|
            0 <= i < items.len() ==> says_call(#[trigger] items[i], calls[i])),
    decreases items.len(),
{
    if items.len() > 0 {
        let init = items.drop_last();
        items_say_their_calls(init);
        if let Ok(calls) = calls_of_items(items) {
            let earlier = calls_of_items(init)->Ok_0;
            assert(says_call(items.last(), calls.last()));
            assert forall|i: int| 0 <= i < items.len() implies says_call(
                #[trigger] items[i],
                calls[i],
            ) by {
                if i < init.len() {
                    assert(says_call(init[i], earlier[i]));
                }
            }
        }
    }
}

/// Calls that are listed are taken as they are: as many as there are items, in their
/// order, each with the identifier, name and arguments that its item says. Each has an
/// identifier of its own and a name, and there are at most sixteen.
pub proof fn listed_calls_are_taken_as_they_are(value: JsonView)
    ensures
        listed_calls(value) matches Ok(calls) ==> value matches JsonView::Array(items) && {
            &&& calls.len() == items.len() <= 16
            &&& forall|i: int| 0 <= i < items.len() ==> says_call(#[trigger] items[i], calls[i])
            &&& forall|i: int|
                0 <= i < calls.len() ==> (#[trigger] calls[i]).id.len() > 0 && calls[i].name.len()
                    > 0
            &&& forall|i: int, j: int|
                0 <= i < j < calls.len() ==> (#[trigger] calls[i]).id != (#[trigger] calls[j]).id
        },
{
    if let JsonView::Array(items) = value {
        items_say_their_calls(items);
        read_calls_are_well_formed(items);
    }
}

proof fn said_calls_are_read(items: Seq<JsonView>, calls: Seq<ToolCallView>)
    requires
        items.len() == calls.len(),
        forall|i: int| 0 <= i < items.len() ==> says_call(#[trigger] items[i], calls[i]),
        calls_well_formed(calls),
    ensures
        calls_of_items(items) == Ok::<_, FailureView>(calls),
    decreases items.len(),
{
    if items.len() == 0 {
        assert(calls =~= Seq::empty());
    } else {
        let init = items.drop_last();
        let earlier = calls.drop_last();
        assert forall|i: int| 0 <= i < init.len() implies says_call(
            #[trigger] init[i],
            earlier[i],
        ) by {
            assert(says_call(items[i], calls[i]));
        }
        assert forall|i: int| 0 <= i < earlier.len() implies (#[trigger] earlier[i]).id.len() > 0
            && earlier[i].name.len() > 0 by {
            assert(calls[i].id.len() > 0);
        }
        assert forall|i: int, j: int| 0 <= i < j < earlier.len() implies (#[trigger] earlier[i]).id
            != (#[trigger] earlier[j]).id by {
            assert(calls[i].id != calls[j].id);
        }
        said_calls_are_read(init, earlier);
        let last = calls.last();
        assert(says_call(items[items.len() - 1], calls[calls.len() - 1]));
        assert(calls[calls.len() - 1].id.len() > 0);
        assert forall|k: int| 0 <= k < earlier.len() implies (#[trigger] earlier[k]).id
            != last.id by {
            assert(calls[k].id != calls[calls.len() - 1].id);
        }
        assert(one_call(items.last(), earlier) == Ok::<_, FailureView>(last));
        assert(earlier.push(last) =~= calls);
    }
}

/// Up to sixteen items that say calls, each with an identifier of its own and a name, are
/// read as these calls.
pub proof fn well_formed_calls_are_read(items: Seq<JsonView>, calls: Seq<ToolCallView>)
    requires
        items.len() == calls.len() <= 16,
        forall|i: int| 0 <= i < items.len() ==> says_call(#[trigger] items[i], calls[i]),
        forall|i: int|
            0 <= i < calls.len() ==> (#[trigger] calls[i]).id.len() > 0 && calls[i].name.len() > 0,
        forall|i: int, j: int|
            0 <= i < j < calls.len() ==> (#[trigger] calls[i]).id != (#[trigger] calls[j]).id,
    ensures
        listed_calls(JsonView::Array(items)) == Ok::<_, FailureView>(calls),
{
    said_calls_are_read(items, calls);
}

/// What items show is what each of them shows, one after the other.
pub proof fn shown_items_follow_each_other(a: Seq<JsonView>, b: Seq<JsonView>)
    ensures
        rendered_items(a + b) == rendered_items(a) + rendered_items(b),
    decreases b.len(),
{
    if b.len() == 0 {
        assert(a + b =~= a);
        assert(rendered_items(a) + rendered_items(b) =~= rendered_items(a));
    } else {
        assert((a + b).drop_last() =~= a + b.drop_last());
        shown_items_follow_each_other(a, b.drop_last());
        assert(rendered_items(a + b) =~= rendered_items(a) + rendered_items(b));
    }
}

/// An item that is an object shows its Markdown and its details, each where the item has
/// it; any other item shows nothing.
pub proof fn an_item_shows_its_fields(item: JsonView)
    ensures
        match item {
            JsonView::Object(fields) => rendered_items(seq![item]).len() == 1 && {
                let shown = rendered_items(seq![item])[0];
                &&& lookup(fields, "response_markdown"@) matches Some(JsonView::Text(text))
                    ==> shown.markdown == text
                &&& !(lookup(fields, "response_markdown"@) matches Some(JsonView::Text(_)))
                    ==> shown.markdown.len() == 0
                &&& lookup(fields, "details"@) matches Some(JsonView::Object(details)) ==> (lookup(
                    details,
                    "response_details"@,
                ) matches Some(JsonView::Array(items)) ==> shown.details == items)
                &&& !(lookup(fields, "details"@) matches Some(JsonView::Object(details)) && (lookup(
                    details,
                    "response_details"@,
                ) matches Some(JsonView::Array(_)))) ==> shown.details.len() == 0
            },
            _ => rendered_items(seq![item]).len() == 0,
        },
{
    reveal_with_fuel(rendered_items, 2);
    assert(seq![item].drop_last() =~= Seq::empty());
}

/// At most 16 calls are taken from one message; more breach a limit, and anything but a list
/// breaks the protocol.
pub proof fn only_so_many_calls_are_taken(value: JsonView)
    ensures
        value matches JsonView::Array(items) ==> items.len() > 16 ==> (
        listed_calls(value) matches Err(failure) && failure.kind == ToolFailureKind::LimitExceeded),
        !(value is Array) ==> (listed_calls(value) matches Err(failure) && failure.kind
            == ToolFailureKind::UpstreamProtocol),
{
}

} // verus!
