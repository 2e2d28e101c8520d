use onec_buddy_mcp::mcp::markdown::rename_1c_markdown_fences;

#[test]
fn markdown_cleanup_only_renames_the_opening_fence_designation() {
    let source = [
        "До Ａ\u{301}\r\n",
        "```1C (BSL)\r\n",
        "Строка = \"```1C\";\r\n",
        "\u{0001}\r\n",
        "```\r\n",
        "После",
    ]
    .concat();
    let cleaned = rename_1c_markdown_fences(&source);

    assert_eq!(
        cleaned,
        [
            "До Ａ\u{301}\r\n",
            "```bsl\r\n",
            "Строка = \"```1C\";\r\n",
            "\u{0001}\r\n",
            "```\r\n",
            "После",
        ]
        .concat()
    );
}

#[test]
fn fences_open_and_close_by_line() {
    assert_eq!(rename_1c_markdown_fences("```1С\n```"), "```bsl\n```");
    assert_eq!(
        rename_1c_markdown_fences("   ```1C\r```1C\r```  \r```1C"),
        "   ```bsl\r```1C\r```  \r```bsl"
    );
    assert_eq!(rename_1c_markdown_fences("    ```1C\n"), "    ```1C\n");
    assert_eq!(
        rename_1c_markdown_fences("```python\n```1C\n```\n```1C\n"),
        "```python\n```1C\n```\n```bsl\n"
    );
    assert_eq!(rename_1c_markdown_fences(""), "");
}

#[test]
fn renaming_again_changes_nothing() {
    for source in ["```1C\nx\n```", " ```1С\r\n\r\n```\n```1C (BSL)", "a\r\rb\n```1C"] {
        let once = rename_1c_markdown_fences(source);
        assert_eq!(rename_1c_markdown_fences(&once), once);
    }
}
