use onec_buddy_mcp::naparnik::merge::merge_text;

#[test]
fn merge_text_preserves_an_overlap_larger_than_eight_kibibytes() {
    let overlap = "аб".repeat(5_000);
    let mut accumulated = format!("начало-{overlap}");
    let next = format!("{overlap}-конец");

    merge_text(&mut accumulated, &next);

    assert_eq!(accumulated, format!("начало-{overlap}-конец"));
}

#[test]
fn merge_text_handles_a_byte_limit_inside_a_unicode_scalar() {
    let mut accumulated = "x".to_owned();

    merge_text(&mut accumulated, "аб");

    assert_eq!(accumulated, "x\n\nаб");
}

fn merged(accumulated: &str, next: &str) -> String {
    let mut text = accumulated.to_owned();
    merge_text(&mut text, next);
    text
}

#[test]
fn contained_texts_are_not_repeated() {
    assert_eq!(merged("abc", ""), "abc");
    assert_eq!(merged("abc", "b"), "abc");
    assert_eq!(merged("", "abc"), "abc");
    assert_eq!(merged("b", "abc"), "abc");
}

#[test]
fn the_longest_overlap_is_shared() {
    assert_eq!(merged("xabab", "ababy"), "xababy");
    assert_eq!(merged("xaaa", "aaaay"), "xaaaay");
    assert_eq!(merged("яаа", "ааб"), "яааб");
    assert_eq!(merged("one", "two"), "one\n\ntwo");
}

#[test]
fn merging_keeps_both_texts_and_merging_again_changes_nothing() {
    for (accumulated, next) in [("ab", "bc"), ("one", "two"), ("ааб", "баа"), ("x", "xx")] {
        let text = merged(accumulated, next);
        assert!(text.contains(accumulated));
        assert!(text.contains(next));
        assert_eq!(merged(&text, next), text);
    }
}

#[test]
fn a_text_that_occurs_already_is_not_joined() {
    let join = |so_far: &str, next: &str| {
        let mut accumulated = so_far.to_owned();
        merge_text(&mut accumulated, next);
        accumulated
    };
    assert_eq!(join("aabaaabaa", "aaab"), "aabaaabaa");
    assert_eq!(join("ыыъы", "ыъ"), "ыыъы");
    assert_eq!(join("ыъ", "ыыъы"), "ыыъы");
    assert_eq!(join("aab", "aaab"), "aaab");
    assert_eq!(join("ab", "ba"), "aba");
    assert_eq!(join("ab", "ca"), "ab\n\nca");
}
