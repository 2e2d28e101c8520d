use onec_buddy_mcp::error::ToolFailureKind;
use onec_buddy_mcp::json::{Json, JsonObject};
use onec_buddy_mcp::json_text::{json_string, parse_json};
use onec_buddy_mcp::limits::{INTERNAL_TOOL_STEPS_MAX, TOOL_CALLS_PER_MESSAGE_MAX};
use onec_buddy_mcp::naparnik::tool_roundtrip::{
    build_standard_results, require_exact_tool, validate_tool_calls, StepCounter, ToolCall,
    EXACT_TOOL_NAMES,
};

fn call(id: &str, name: &str) -> ToolCall {
    ToolCall::new(id.to_owned(), name.to_owned(), JsonObject::new())
}

fn object(text: &str) -> JsonObject {
    match parse_json(text) {
        Some(Json::Object(object)) => object,
        _ => unreachable!("object literal"),
    }
}

#[test]
fn standard_results_preserve_every_call_and_report_unknown_names() {
    let calls = vec![
        call("first", "TaskResult"),
        call("second", "unsupported"),
        call("third", EXACT_TOOL_NAMES[0]),
    ];

    let results = build_standard_results(&calls).unwrap();

    let expected = [
        r#"{"status":"accepted","tool_call_id":"first","content":null}"#,
        r#"{"status":"rejected","tool_call_id":"second","content":{"error":"unsupported internal tool"}}"#,
        r#"{"status":"accepted","tool_call_id":"third","content":null}"#,
    ];
    assert_eq!(results.len(), expected.len());
    for (result, text) in results.iter().zip(expected) {
        assert!(result.equals(&parse_json(text).unwrap()), "{text}");
    }
}

#[test]
fn direct_mode_requires_exactly_one_expected_pinned_tool() {
    let expected_arguments = JsonObject::new();
    for expected in EXACT_TOOL_NAMES {
        let calls = vec![call("call-1", expected)];
        let selected = require_exact_tool(&calls, expected, &expected_arguments).unwrap();
        assert_eq!(selected.id(), "call-1");
    }

    for invalid in [
        Vec::new(),
        vec![
            call("a", EXACT_TOOL_NAMES[0]),
            call("b", EXACT_TOOL_NAMES[0]),
        ],
        vec![call("a", EXACT_TOOL_NAMES[1])],
    ] {
        let error =
            require_exact_tool(&invalid, EXACT_TOOL_NAMES[0], &expected_arguments).unwrap_err();
        assert_eq!(error.kind(), ToolFailureKind::UpstreamProtocol);
    }
}

#[test]
fn direct_mode_requires_structurally_equal_arguments() {
    let expected_arguments = object(r#"{"query":"test","extended":false}"#);
    let reordered_arguments = object(r#"{"extended":false,"query":"test"}"#);
    let different_arguments = object(r#"{"query":"other","extended":false}"#);

    let matching = ToolCall::new(
        "call-1".to_owned(),
        EXACT_TOOL_NAMES[2].to_owned(),
        reordered_arguments,
    );
    require_exact_tool(&[matching], EXACT_TOOL_NAMES[2], &expected_arguments)
        .expect("equal JSON objects are accepted");

    let different = ToolCall::new(
        "call-1".to_owned(),
        EXACT_TOOL_NAMES[2].to_owned(),
        different_arguments,
    );
    let error =
        require_exact_tool(&[different], EXACT_TOOL_NAMES[2], &expected_arguments).unwrap_err();
    assert_eq!(error.kind(), ToolFailureKind::UpstreamProtocol);
}

#[test]
fn step_counter_rejects_an_eleventh_internal_tool_round() {
    let mut counter = StepCounter::default();
    for _ in 0..INTERNAL_TOOL_STEPS_MAX {
        counter.begin_step().unwrap();
    }

    let error = counter.begin_step().unwrap_err();
    assert_eq!(error.kind(), ToolFailureKind::LimitExceeded);
}

#[test]
fn array_limit_is_checked_before_results_are_built() {
    let boundary_calls = (0..TOOL_CALLS_PER_MESSAGE_MAX)
        .map(|index| call(&format!("call-{index}"), "TaskResult"))
        .collect::<Vec<_>>();
    assert_eq!(
        build_standard_results(&boundary_calls)
            .expect("sixteen calls are accepted")
            .len(),
        TOOL_CALLS_PER_MESSAGE_MAX
    );

    let calls = (0..=TOOL_CALLS_PER_MESSAGE_MAX)
        .map(|index| call(&format!("call-{index}"), "TaskResult"))
        .collect::<Vec<_>>();

    let error = build_standard_results(&calls).unwrap_err();
    assert_eq!(error.kind(), ToolFailureKind::LimitExceeded);
}

#[test]
fn arguments_remain_structured_json_objects() {
    let mut arguments = JsonObject::new();
    arguments.insert("query".to_owned(), Json::Text("значение".to_owned()));
    let call = ToolCall::new("id".to_owned(), EXACT_TOOL_NAMES[1].to_owned(), arguments);

    assert!(matches!(
        call.arguments().get("query"),
        Some(Json::Text(text)) if text == "значение"
    ));
}

#[test]
fn blank_or_repeated_identifiers_are_refused() {
    for invalid in [
        vec![call("", "TaskResult")],
        vec![call("a", "")],
        vec![call("a", "TaskResult"), call("a", "TaskResult")],
    ] {
        let error = validate_tool_calls(&invalid).unwrap_err();
        assert_eq!(error.kind(), ToolFailureKind::UpstreamProtocol);
        assert_eq!(error.message(), "the internal tool call array is invalid");
    }
    assert!(validate_tool_calls(&[call("a", "x"), call("b", "x")]).is_ok());
}

#[test]
fn an_exact_tool_must_be_a_pinned_one() {
    let error =
        require_exact_tool(&[call("a", "TaskResult")], "TaskResult", &JsonObject::new())
            .unwrap_err();
    assert_eq!(
        error.message(),
        "the exact internal tool response is incompatible"
    );
}

#[test]
fn arguments_compare_by_value_and_not_by_order() {
    let a = object(r#"{"x":[1,2.0,-3],"y":{"z":null}}"#);
    let b = object(r#"{"y":{"z":null},"x":[1,2.0,-3]}"#);
    let c = object(r#"{"x":[1,2.0,-4],"y":{"z":null}}"#);
    let d = object(r#"{"x":[1,2.0,-3]}"#);
    let e = object(r#"{"x":[1.0,2.0,-3],"y":{"z":null}}"#);
    assert!(a.equals(&b));
    assert!(!a.equals(&c));
    assert!(!a.equals(&d));
    assert!(!a.equals(&e));
    assert!(object(r#"{"x":0.0}"#).equals(&object(r#"{"x":-0.0}"#)));
    assert_eq!(
        json_string(&Json::Object(a)).unwrap(),
        r#"{"x":[1,2.0,-3],"y":{"z":null}}"#
    );
}
