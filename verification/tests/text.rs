use onec_buddy_mcp::json::Json;
use onec_buddy_mcp::json_text::parse_json;
use onec_buddy_mcp::mcp::text::{
    extract_standard_text, extract_tool_text, keep_shown_chars, python_repr_string, sanitize_text,
    DirectToolText,
};
use onec_buddy_mcp::naparnik::response::RenderedToolResult;

fn rendered(markdown: &str, details: &str) -> RenderedToolResult {
    match parse_json(details) {
        Some(Json::Array(details)) => RenderedToolResult::new(markdown.to_owned(), details),
        _ => unreachable!("array literal"),
    }
}

fn details_text(details: &str) -> String {
    extract_tool_text(&DirectToolText {
        tool_results: &vec![rendered("", details)],
        full_text: "",
        tool_followups: &Vec::new(),
        final_text: "",
    })
}

#[test]
fn whitespace_only_followup_does_not_hide_final_text() {
    let input = DirectToolText {
        tool_results: &Vec::new(),
        full_text: "",
        tool_followups: &vec!["   ".to_owned()],
        final_text: "итог",
    };

    assert_eq!(extract_tool_text(&input), "итог");
}

#[test]
fn tool_text_joins_results_details_and_the_spoken_text() {
    let results = vec![
        rendered("  Ошибок не обнаружено\n", r#"["подробность", true, 0, "", null]"#),
        rendered("✓ Инструмент выполнен", "[]"),
    ];
    let followups = vec!["первый".to_owned(), " второй ".to_owned(), " ".to_owned()];
    let text = |full: &str, last: &str| {
        extract_tool_text(&DirectToolText {
            tool_results: &results,
            full_text: full,
            tool_followups: &followups,
            final_text: last,
        })
    };
    assert_eq!(
        text(" целиком ", "итог"),
        "Ошибок не обнаружено\nподробность\nTrue\nцеликом"
    );
    assert_eq!(
        text(" ", "итог"),
        "Ошибок не обнаружено\nподробность\nTrue\nвторой"
    );
}

#[test]
fn details_are_shown_as_python_values() {
    assert_eq!(details_text(r#"[{"b":[1,-2,0.5],"a":null}]"#), "{'a': None, 'b': [1, -2, 0.5]}");
    assert_eq!(details_text(r#"[[true,false,"it's"]]"#), "[True, False, \"it's\"]");
    assert_eq!(
        details_text(r#"[["a\\b\n\r\t\u0001\u007f\u0085'\""]]"#),
        "['a\\\\b\\n\\r\\t\\x01\\x7f\\x85\\'\"']"
    );
    assert_eq!(details_text(r#"[0, 0.0, -0.0, false, null, "", [], {}]"#), "");
    assert_eq!(
        details_text("[-9223372036854775808, 18446744073709551615, 1.5e300]"),
        "-9223372036854775808\n18446744073709551615\n1.5e+300"
    );
}

#[test]
fn standard_text_prefers_the_whole_text() {
    let followups = vec!["x".to_owned(), " y ".to_owned(), String::new()];
    assert_eq!(extract_standard_text(" a ", "b", &followups), "a");
    assert_eq!(extract_standard_text(" ", " b", &followups), "b");
    assert_eq!(extract_standard_text("", "", &followups), "y");
    assert_eq!(
        extract_standard_text("", "", &vec!["x".to_owned(), " ".to_owned()]),
        ""
    );
    assert_eq!(extract_standard_text("", "", &Vec::new()), "");
}

#[test]
fn answers_are_normalized_and_free_of_controls() {
    assert_eq!(sanitize_text(""), "");
    assert_eq!(sanitize_text("Ａ\u{fb01}"), "Afi");
    assert_eq!(sanitize_text("e\u{301}"), "\u{e9}");
    assert_eq!(
        sanitize_text("a\u{0}\u{7f}\u{200b}\u{feff}\u{202e}b\tc\r\nd"),
        "ab\tc\r\nd"
    );
    assert_eq!(keep_shown_chars("Ａ\u{1}\n"), "Ａ\n");
}

#[test]
fn quoted_strings_differ_and_are_clean() {
    let texts = ["", "'", "\"", "'\"", "\\", "\\n", "\n", "\\x0a", "\u{b}", "n", "x0b", "\u{9f}", "ÿ"];
    let quoted: Vec<String> = texts
        .iter()
        .map(|text| {
            let detail = serde_json::to_string(&[[text]]).unwrap();
            details_text(&detail)
        })
        .collect();
    for (i, a) in quoted.iter().enumerate() {
        assert!(!a.chars().any(char::is_control), "{a}");
        for b in &quoted[i + 1..] {
            assert_ne!(a, b);
        }
    }
    assert_eq!(quoted[1], "[\"'\"]");
    assert_eq!(quoted[2], "['\"']");
    assert_eq!(quoted[3], "['\\'\"']");
}

#[test]
fn strings_are_written_as_python_shows_them() {
    for (text, shown) in [
        ("", "''"),
        ("a", "'a'"),
        ("it's", "\"it's\""),
        ("say \"hi\"", "'say \"hi\"'"),
        ("it's \"it\"", "'it\\'s \"it\"'"),
        ("a\\b", "'a\\\\b'"),
        ("a\nb\tc\r", "'a\\nb\\tc\\r'"),
    ] {
        assert_eq!(python_repr_string(text), shown);
    }
}
