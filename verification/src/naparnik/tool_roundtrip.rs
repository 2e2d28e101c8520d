//! Internal tool calls.

use vstd::prelude::*;

use crate::error::{limit_breach, protocol_breach, FailureView};
use crate::error::{ToolFailure, ToolFailureKind};
use crate::json::{
    array_view,
    fields_equal,
    fields_equal_themselves,
    json_equal,
    lookup,
    pair_views,
    put_all,
    the_last_pair_stands,
    unique_fields,
    Fields,
    JsonView,
};
use crate::json::{Json, JsonObject};
use crate::limits::{INTERNAL_TOOL_STEPS_MAX, TOOL_CALLS_PER_MESSAGE_MAX};
use crate::strings::same_text;

verus! {

pub const EXACT_TOOL_NAMES: [&'static str; 5] = [
    "mcp__syntax-checker__validate",
    "mcp__knowledge-hub__Search_Documentation",
    "mcp__knowledge-hub__Search_ITS",
    "mcp__knowledge-hub__Fetch_ITS",
    "mcp__knowledge-hub__Diff_Documentation_Versions",
];

/// An internal tool that the service asks to be run.
#[derive(Debug)]
pub struct ToolCall {
    id: String,
    name: String,
    arguments: JsonObject,
}

/// The content of a [`ToolCall`].
pub struct ToolCallView {
    pub id: Seq<char>,
    pub name: Seq<char>,
    pub arguments: Fields,
}

impl View for ToolCall {
    type V = ToolCallView;

    closed spec fn view(&self) -> ToolCallView {
        ToolCallView { id: self.id@, name: self.name@, arguments: self.arguments@ }
    }
}

/// The content of a list of calls.
pub open spec fn call_views(calls: Seq<ToolCall>) -> Seq<ToolCallView> {
    calls.map_values(|call: ToolCall| call@)
}

impl ToolCall {
    pub fn new(id: String, name: String, arguments: JsonObject) -> (res: Self)
        ensures
            res@ == (ToolCallView { id: id@, name: name@, arguments: arguments@ }),
    {
        Self { id, name, arguments }
    }

    pub fn id(&self) -> (res: &str)
        ensures
            res@ == self@.id,
    {
        self.id.as_str()
    }

    pub fn name(&self) -> (res: &str)
        ensures
            res@ == self@.name,
    {
        self.name.as_str()
    }

    pub fn arguments(&self) -> (res: &JsonObject)
        ensures
            res@ == self@.arguments,
    {
        &self.arguments
    }

    /// A copy.
    pub fn duplicate(&self) -> (res: ToolCall)
        ensures
            res@ == self@,
    {
        ToolCall {
            id: self.id.clone(),
            name: self.name.clone(),
            arguments: self.arguments.duplicate(),
        }
    }
}

/// Counts the rounds of internal tool calls in one exchange.
#[derive(Debug)]
pub struct StepCounter {
    completed: usize,
}

impl View for StepCounter {
    type V = nat;

    closed spec fn view(&self) -> nat {
        self.completed as nat
    }
}

impl Default for StepCounter {
    fn default() -> (res: Self)
        ensures
            res@ == 0,
    {
        StepCounter { completed: 0 }
    }
}

impl StepCounter {
    /// Starts a round, unless the limit is reached.
    pub fn begin_step(&mut self) -> (res: Result<(), ToolFailure>)
        ensures
            match res {
                Ok(_) => old(self)@ < INTERNAL_TOOL_STEPS_MAX && final(self)@ == old(self)@ + 1,
                Err(failure) => old(self)@ >= INTERNAL_TOOL_STEPS_MAX && final(self)@ == old(self)@
                    && failure@ == limit_breach("the internal tool step limit was exceeded"@),
            },
    {
        if self.completed >= INTERNAL_TOOL_STEPS_MAX {
            return Err(
                ToolFailure::new(
                    ToolFailureKind::LimitExceeded,
                    "the internal tool step limit was exceeded",
                    false,
                ),
            );
        }
        self.completed += 1;
        Ok(())
    }
}

/// The name is one of [`EXACT_TOOL_NAMES`].
pub open spec fn is_exact_tool_name(name: Seq<char>) -> bool {
    exists|i: int| 0 <= i < 5 && (#[trigger] EXACT_TOOL_NAMES[i])@ == name
}

/// A tool that may be accepted outside the exact mode.
pub open spec fn is_standard_tool_name(name: Seq<char>) -> bool {
    name == "TaskResult"@ || is_exact_tool_name(name)
}

/// Every call has an identifier and a name, and no identifier occurs twice.
pub open spec fn calls_well_formed(calls: Seq<ToolCallView>) -> bool {
    &&& forall|i: int|
        0 <= i < calls.len() ==> (#[trigger] calls[i]).id.len() > 0 && calls[i].name.len() > 0
    &&& forall|i: int, j: int|
        0 <= i < j < calls.len() ==> (#[trigger] calls[i]).id != (#[trigger] calls[j]).id
}

/// What is wrong with a list of calls, if anything.
pub open spec fn calls_breach(calls: Seq<ToolCallView>) -> Option<FailureView> {
    if calls.len() > TOOL_CALLS_PER_MESSAGE_MAX {
        Some(limit_breach("the internal tool call count exceeds the limit"@))
    } else if calls_well_formed(calls) {
        None
    } else {
        Some(protocol_breach("the internal tool call array is invalid"@))
    }
}

/// The answer to one call outside the exact mode.
pub open spec fn standard_result(call: ToolCallView) -> JsonView {
    if is_standard_tool_name(call.name) {
        JsonView::Object(
            put_all(
                seq![
                    ("status"@, JsonView::Text("accepted"@)),
                    ("tool_call_id"@, JsonView::Text(call.id)),
                    ("content"@, JsonView::Null),
                ],
            ),
        )
    } else {
        JsonView::Object(
            put_all(
                seq![
                    ("status"@, JsonView::Text("rejected"@)),
                    ("tool_call_id"@, JsonView::Text(call.id)),
                    (
                        "content"@,
                        JsonView::Object(
                            put_all(
                                seq![
                                    ("error"@, JsonView::Text("unsupported internal tool"@)),
                                ],
                            ),
                        ),
                    ),
                ],
            ),
        )
    }
}

/// What is wrong with the calls where exactly one is expected, if anything.
pub open spec fn exact_breach(
    calls: Seq<ToolCallView>,
    expected_name: Seq<char>,
    expected_arguments: Fields,
) -> Option<FailureView> {
    if calls_breach(calls) is Some {
        calls_breach(calls)
    } else if is_exact_tool_name(expected_name) && calls.len() == 1 && calls[0].name
        == expected_name && fields_equal(calls[0].arguments, expected_arguments) {
        None
    } else {
        Some(protocol_breach("the exact internal tool response is incompatible"@))
    }
}

/// Answers every call of a round, in order.
pub fn build_standard_results(calls: &[ToolCall]) -> (res: Result<Vec<Json>, ToolFailure>)
    ensures
        match res {
            Ok(results) => calls_breach(call_views(calls@)) is None && array_view(results@)
                == call_views(calls@).map_values(|call: ToolCallView| standard_result(call)),
            Err(failure) => calls_breach(call_views(calls@)) == Some(failure@),
        },
{
    match validate_tool_calls(calls) {
        Ok(_) => {},
        Err(failure) => {
            return Err(failure);
        },
    }
    let mut results: Vec<Json> = Vec::new();
    let mut i: usize = 0;
    while i < calls.len()
        invariant
            i <= calls@.len(),
            results@.len() == i,
            forall|k: int|
                0 <= k < i ==> (#[trigger] results@[k])@ == standard_result(calls@[k]@),
        decreases calls@.len() - i,
    {
        results.push(answer_call(&calls[i]));
        i += 1;
    }
    assert(array_view(results@) =~= call_views(calls@).map_values(
        |call: ToolCallView| standard_result(call),
    ));
    Ok(results)
}

fn answer_call(call: &ToolCall) -> (res: Json)
    ensures
        res@ == standard_result(call@),
{
    let accepted: bool = supported_standard_tool(call.name());
    let mut pairs: Vec<(String, Json)> = Vec::new();
    if accepted {
        pairs.push(("status".to_owned(), Json::Text("accepted".to_owned())));
        pairs.push(("tool_call_id".to_owned(), Json::Text(call.id().to_owned())));
        pairs.push(("content".to_owned(), Json::Null));
    } else {
        let mut content: Vec<(String, Json)> = Vec::new();
        content.push(("error".to_owned(), Json::Text("unsupported internal tool".to_owned())));
        assert(pair_views(content@) =~= seq![
            ("error"@, JsonView::Text("unsupported internal tool"@)),
        ]);
        pairs.push(("status".to_owned(), Json::Text("rejected".to_owned())));
        pairs.push(("tool_call_id".to_owned(), Json::Text(call.id().to_owned())));
        pairs.push(("content".to_owned(), Json::Object(JsonObject::from_pairs(content))));
    }
    let ghost views: Fields = pair_views(pairs@);
    let answer: Json = Json::Object(JsonObject::from_pairs(pairs));
    proof {
        let content = if accepted {
            JsonView::Null
        } else {
            JsonView::Object(
                put_all(seq![("error"@, JsonView::Text("unsupported internal tool"@))]),
            )
        };
        let status = if accepted {
            "accepted"@
        } else {
            "rejected"@
        };
        assert(views =~= seq![
            ("status"@, JsonView::Text(status)),
            ("tool_call_id"@, JsonView::Text(call@.id)),
            ("content"@, content),
        ]);
    }
    answer
}

/// The one call of an exact exchange: the expected tool with the expected arguments.
pub fn require_exact_tool<'a>(
    calls: &'a [ToolCall],
    expected_name: &str,
    expected_arguments: &JsonObject,
) -> (res: Result<&'a ToolCall, ToolFailure>)
    ensures
        match res {
            Ok(call) => exact_breach(call_views(calls@), expected_name@, expected_arguments@)
                is None && *call == calls@[0],
            Err(failure) => exact_breach(call_views(calls@), expected_name@, expected_arguments@)
                == Some(failure@),
        },
{
    match validate_tool_calls(calls) {
        Ok(_) => {},
        Err(failure) => {
            return Err(failure);
        },
    }
    if !exact_tool_name(expected_name) || calls.len() != 1 || !same_text(
        calls[0].name(),
        expected_name,
    ) || !calls[0].arguments().equals(expected_arguments) {
        return Err(
            ToolFailure::new(
                ToolFailureKind::UpstreamProtocol,
                "the exact internal tool response is incompatible",
                false,
            ),
        );
    }
    Ok(&calls[0])
}

/// Accepts at most [`TOOL_CALLS_PER_MESSAGE_MAX`] calls, each with an identifier of its
/// own and a name.
pub fn validate_tool_calls(calls: &[ToolCall]) -> (res: Result<(), ToolFailure>)
    ensures
        match res {
            Ok(_) => calls_breach(call_views(calls@)) is None,
            Err(failure) => calls_breach(call_views(calls@)) == Some(failure@),
        },
{
    if calls.len() > TOOL_CALLS_PER_MESSAGE_MAX {
        return Err(
            ToolFailure::new(
                ToolFailureKind::LimitExceeded,
                "the internal tool call count exceeds the limit",
                false,
            ),
        );
    }
    let ghost views: Seq<ToolCallView> = call_views(calls@);
    let mut i: usize = 0;
    while i < calls.len()
        invariant
            i <= calls@.len() <= TOOL_CALLS_PER_MESSAGE_MAX,
            views == call_views(calls@),
            calls_well_formed(views.take(i as int)),
        decreases calls@.len() - i,
    {
        let repeated: bool = identifier_used(calls, i);
        if calls[i].id().is_empty() || calls[i].name().is_empty() || repeated {
            proof {
                assert(views[i as int] == calls@[i as int]@);
                if repeated {
                    let k = choose|k: int|
                        0 <= k < i && (#[trigger] calls@[k])@.id == calls@[i as int]@.id;
                    assert(views[k].id == views[i as int].id);
                }
            }
            return Err(
                ToolFailure::new(
                    ToolFailureKind::UpstreamProtocol,
                    "the internal tool call array is invalid",
                    false,
                ),
            );
        }
        assert(calls_well_formed(views.take(i + 1)));
        i += 1;
    }
    assert(views.take(views.len() as int) =~= views);
    Ok(())
}

/// An earlier call has the identifier of the call at `at`.
fn identifier_used(calls: &[ToolCall], at: usize) -> (res: bool)
    requires
        at < calls@.len(),
    ensures
        res == (exists|k: int| 0 <= k < at && (#[trigger] calls@[k])@.id == calls@[at as int]@.id),
{
    let mut k: usize = 0;
    while k < at
        invariant
            k <= at < calls@.len(),
            forall|n: int| 0 <= n < k ==> (#[trigger] calls@[n])@.id != calls@[at as int]@.id,
        decreases at - k,
    {
        if same_text(calls[k].id(), calls[at].id()) {
            return true;
        }
        k += 1;
    }
    false
}

fn supported_standard_tool(name: &str) -> (res: bool)
    ensures
        res == is_standard_tool_name(name@),
{
    same_text(name, "TaskResult") || exact_tool_name(name)
}

fn exact_tool_name(name: &str) -> (res: bool)
    ensures
        res == is_exact_tool_name(name@),
{
    let names: [&'static str; 5] = EXACT_TOOL_NAMES;
    let mut i: usize = 0;
    while i < 5
        invariant
            i <= 5,
            names == EXACT_TOOL_NAMES,
            forall|k: int| 0 <= k < i ==> (#[trigger] EXACT_TOOL_NAMES[k])@ != name@,
        decreases 5 - i,
    {
        if same_text(names[i], name) {
            assert(EXACT_TOOL_NAMES[i as int]@ == name@);
            return true;
        }
        i += 1;
    }
    false
}

/// A call of one of the exact tools, or of `TaskResult`, is answered under its own
/// identifier as accepted and without content. A call of any other tool is answered
/// under its own identifier as rejected, and told why.
pub proof fn known_tools_are_accepted(call: ToolCallView)
    ensures
        standard_result(call) matches JsonView::Object(answer) && {
            let known = call.name == "TaskResult"@ || exists|i: int|
                0 <= i < EXACT_TOOL_NAMES.len() && (#[trigger] EXACT_TOOL_NAMES[i])@ == call.name;
            &&& lookup(answer, "tool_call_id"@) == Some(JsonView::Text(call.id))
            &&& known ==> lookup(answer, "status"@) == Some(JsonView::Text("accepted"@))
            &&& known ==> lookup(answer, "content"@) == Some(JsonView::Null)
            &&& !known ==> lookup(answer, "status"@) == Some(JsonView::Text("rejected"@))
            &&& !known ==> (lookup(answer, "content"@) matches Some(JsonView::Object(content))
                && lookup(content, "error"@) == Some(
                JsonView::Text("unsupported internal tool"@),
            ))
        },
{
    reveal_strlit("status");
    reveal_strlit("tool_call_id");
    reveal_strlit("content");
    assert("status"@.len() == 6 && "tool_call_id"@.len() == 12 && "content"@.len() == 7);
    let known = is_standard_tool_name(call.name);
    assert(known == (call.name == "TaskResult"@ || exists|i: int|
        0 <= i < EXACT_TOOL_NAMES.len() && (#[trigger] EXACT_TOOL_NAMES[i])@ == call.name)) by {
        if is_exact_tool_name(call.name) {
            let i = choose|i: int| 0 <= i < 5 && (#[trigger] EXACT_TOOL_NAMES[i])@ == call.name;
            assert(0 <= i < EXACT_TOOL_NAMES.len());
        }
    }
    let why = seq![("error"@, JsonView::Text("unsupported internal tool"@))];
    the_last_pair_stands(why, 0);
    let pairs = if known {
        seq![
            ("status"@, JsonView::Text("accepted"@)),
            ("tool_call_id"@, JsonView::Text(call.id)),
            ("content"@, JsonView::Null),
        ]
    } else {
        seq![
            ("status"@, JsonView::Text("rejected"@)),
            ("tool_call_id"@, JsonView::Text(call.id)),
            ("content"@, JsonView::Object(put_all(why))),
        ]
    };
    the_last_pair_stands(pairs, 0);
    the_last_pair_stands(pairs, 1);
    the_last_pair_stands(pairs, 2);
}

/// The exact tools are the five of the service: the syntax checker, the two searches, the
/// document and the comparison. Nothing else may be called exactly.
pub proof fn the_exact_tools_are_these(name: Seq<char>)
    ensures
        is_exact_tool_name(name) <==> (name == "mcp__syntax-checker__validate"@ || name
            == "mcp__knowledge-hub__Search_Documentation"@ || name
            == "mcp__knowledge-hub__Search_ITS"@ || name == "mcp__knowledge-hub__Fetch_ITS"@ || name
            == "mcp__knowledge-hub__Diff_Documentation_Versions"@),
{
    assert(EXACT_TOOL_NAMES[0]@ == "mcp__syntax-checker__validate"@);
    assert(EXACT_TOOL_NAMES[1]@ == "mcp__knowledge-hub__Search_Documentation"@);
    assert(EXACT_TOOL_NAMES[2]@ == "mcp__knowledge-hub__Search_ITS"@);
    assert(EXACT_TOOL_NAMES[3]@ == "mcp__knowledge-hub__Fetch_ITS"@);
    assert(EXACT_TOOL_NAMES[4]@ == "mcp__knowledge-hub__Diff_Documentation_Versions"@);
    if is_exact_tool_name(name) {
        let i = choose|i: int| 0 <= i < 5 && (#[trigger] EXACT_TOOL_NAMES[i])@ == name;
        assert(i == 0 || i == 1 || i == 2 || i == 3 || i == 4);
    }
}

/// Calls are refused exactly where there are more than sixteen of them, where one lacks an
/// identifier or a name, or where two share an identifier. Too many calls are a breach of
/// a limit, anything else is one of the protocol.
pub proof fn only_faulty_calls_are_refused(calls: Seq<ToolCallView>)
    ensures
        calls_breach(calls) is None <==> {
            &&& calls.len() <= 16
            &&& forall|i: int|
                0 <= i < calls.len() ==> (#[trigger] calls[i]).id.len() > 0 && calls[i].name.len()
                    > 0
            &&& forall|i: int, j: int|
                0 <= i < calls.len() && 0 <= j < calls.len() && i != j ==> (#[trigger] calls[i]).id
                    != (#[trigger] calls[j]).id
        },
        calls_breach(calls) matches Some(failure) ==> failure.kind == (if calls.len() > 16 {
            ToolFailureKind::LimitExceeded
        } else {
            ToolFailureKind::UpstreamProtocol
        }),
{
}

/// An exact exchange goes on after one call of the expected tool with the expected
/// arguments: the same number of fields, each with an equal value.
pub proof fn the_expected_call_is_required(
    calls: Seq<ToolCallView>,
    name: Seq<char>,
    arguments: Fields,
)
    requires
        exact_breach(calls, name, arguments) is None,
    ensures
        calls.len() == 1,
        calls[0].id.len() > 0,
        calls[0].name == name,
        is_exact_tool_name(name),
        calls[0].arguments.len() == arguments.len(),
        forall|i: int|
            0 <= i < calls[0].arguments.len() ==> (lookup(
                arguments,
                (#[trigger] calls[0].arguments[i]).0,
            ) matches Some(value) && json_equal(calls[0].arguments[i].1, value)),
{
    assert(fields_equal(calls[0].arguments, arguments));
    assert forall|i: int| 0 <= i < calls[0].arguments.len() implies (lookup(
        arguments,
        (#[trigger] calls[0].arguments[i]).0,
    ) matches Some(value) && json_equal(calls[0].arguments[i].1, value)) by {
    }
}

/// The one call that was asked for is accepted.
pub proof fn the_call_asked_for_is_accepted(call: ToolCallView)
    requires
        call.id.len() > 0,
        is_exact_tool_name(call.name),
        call.name.len() > 0,
        unique_fields(call.arguments),
    ensures
        exact_breach(seq![call], call.name, call.arguments) is None,
{
    fields_equal_themselves(call.arguments);
    let calls = seq![call];
    assert(calls[0] == call);
}

} // verus!
