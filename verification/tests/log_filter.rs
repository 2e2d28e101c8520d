use onec_buddy_mcp::log_filter::directives_come_apart;
use tracing_subscriber::EnvFilter;

/// Whether the text is a filter; `None` where it cannot be told, as the reading panics.
fn reading(runtime: &tokio::runtime::Runtime, text: &str) -> Option<bool> {
    let text = text.to_owned();
    runtime
        .block_on(async move { tokio::spawn(async move { EnvFilter::try_new(text).is_ok() }).await })
        .ok()
}

fn runtime() -> tokio::runtime::Runtime {
    tokio::runtime::Builder::new_current_thread()
        .build()
        .expect("runtime")
}

#[test]
fn directives_come_apart_between_characters_or_not() {
    for apart in [
        "",
        "warn",
        "ы=debug",
        "info,ы=debug",
        " ы",
        "info, слово",
        "  [ж]",
        "a[b{c=d}]=info",
        " a[b]=info",
        " ж]",
        "\u{a0}a",
    ] {
        assert!(directives_come_apart(apart), "{apart:?}");
    }
    for broken in [
        " ы=debug",
        "info, ы=debug",
        " [ж]",
        "   [ж{f}]",
        "\u{a0}[a]",
        "a,\u{3000}b=warn",
        " a[ж]=info",
    ] {
        assert!(!directives_come_apart(broken), "{broken:?}");
    }
}

#[test]
fn short_texts_are_left_out_only_where_they_cannot_be_read() {
    let alphabet = [' ', '\u{a0}', 'a', 'ж', '€', '[', ']', '{', '}', '='];
    let runtime = runtime();
    let mut texts = vec![String::new()];
    let mut first = 0;
    for _ in 0..5 {
        let last = texts.len();
        for at in first..last {
            for c in alphabet {
                let mut longer = texts[at].clone();
                longer.push(c);
                texts.push(longer);
            }
        }
        first = last;
    }
    let mut left_out = 0;
    for text in &texts {
        match reading(&runtime, text) {
            Some(true) => assert!(directives_come_apart(text), "{text:?} is a filter"),
            Some(false) => {}
            None => {
                left_out += 1;
                assert!(!directives_come_apart(text), "{text:?} cannot be read");
            }
        }
    }
    assert!(left_out > 0);
}

#[test]
fn directives_are_taken_apart_one_by_one() {
    let runtime = runtime();
    let directives = [
        "", " ", "a", " a", "ж", " ж", " ж=", "ж=warn", " [ж]", "  [ж]", "  [жж{f}]", " a[b{€}]",
        "   [€{ж}]", "\u{a0}[]", "\u{a0}a[]", " ]=[", "b=5",
    ];
    for a in directives {
        for b in directives {
            let text = format!("{a},{b}");
            assert_eq!(
                directives_come_apart(&text),
                directives_come_apart(a) && directives_come_apart(b),
                "{text:?}"
            );
            match reading(&runtime, &text) {
                Some(true) => assert!(directives_come_apart(&text), "{text:?}"),
                Some(false) => {}
                None => assert!(!directives_come_apart(&text), "{text:?}"),
            }
        }
    }
}
