use metrique::case_convert::CaseStyle;
use metrique::case_convert::CaseStyle::{
    Camel, Kebab, Lower, Pascal, Preserve, ScreamingKebab, ScreamingSnake, Snake, Upper,
};
use metrique::case_convert::{
    name_contains_dot, name_contains_uninflectables, name_ends_with_delimiter,
};

fn check(name: &str, expected: &[(CaseStyle, &str)]) {
    for &(style, want) in expected {
        assert_eq!(style.apply(name), want, "{style:?} of {name:?}");
    }
}

#[test]
fn simple_words() {
    for input in [
        "fooBar", "FooBar", "foo-bar", "foo_bar", "FOO_BAR", "Foo bar", "Foo Bar", "Foo-Bar",
    ] {
        check(
            input,
            &[
                (Camel, "fooBar"),
                (Pascal, "FooBar"),
                (Snake, "foo_bar"),
                (ScreamingSnake, "FOO_BAR"),
                (Kebab, "foo-bar"),
                (ScreamingKebab, "FOO-BAR"),
            ],
        );
    }
}

#[test]
fn preserve_lower_upper() {
    check(
        "fooBar",
        &[(Preserve, "fooBar"), (Lower, "foobar"), (Upper, "FOOBAR")],
    );
}

#[test]
fn separators_are_dropped_and_collapsed() {
    check(
        "  __foo--_bar__  ",
        &[
            (Camel, "fooBar"),
            (Pascal, "FooBar"),
            (Snake, "foo_bar"),
            (Kebab, "foo-bar"),
        ],
    );
    // Trailing separators must not leave a dangling delimiter.
    check("foo_", &[(Snake, "foo"), (Kebab, "foo"), (Pascal, "Foo")]);
    check(
        "Random text with *(bad) chars",
        &[
            (Snake, "random_text_with_bad_chars"),
            (Pascal, "RandomTextWithBadChars"),
            (Camel, "randomTextWithBadChars"),
        ],
    );
}

#[test]
fn empty_and_single_character() {
    check("", &[(Snake, ""), (Pascal, ""), (Camel, "")]);
    check("_", &[(Snake, ""), (Pascal, ""), (Camel, "")]);
    check("a", &[(Snake, "a"), (Pascal, "A"), (Camel, "a")]);
    check("A", &[(Snake, "a"), (Pascal, "A"), (Camel, "a")]);
}

#[test]
fn uppercase_runs() {
    check(
        "XMLHttpRequest",
        &[
            (Snake, "xml_http_request"),
            (ScreamingSnake, "XML_HTTP_REQUEST"),
            (Kebab, "xml-http-request"),
            (Pascal, "XmlhttpRequest"),
            (Camel, "xmlhttpRequest"),
        ],
    );
    check(
        "HTTPSConnection",
        &[(Snake, "https_connection"), (Pascal, "Httpsconnection")],
    );
    check(
        "FooBARBaz",
        &[
            (Snake, "foo_bar_baz"),
            (Pascal, "FooBARBaz"),
            (Camel, "fooBARBaz"),
        ],
    );
    check(
        "myURLPath",
        &[(Snake, "my_url_path"), (Pascal, "MyURLPath")],
    );
    check("ABC", &[(Snake, "abc"), (Pascal, "Abc"), (Camel, "abc")]);
    check("ABCd", &[(Snake, "ab_cd"), (Pascal, "Abcd")]);
    check(
        "aBCD",
        &[(Snake, "a_bcd"), (Pascal, "Abcd"), (Camel, "aBCD")],
    );
    check(
        "A_B_C",
        &[(Snake, "a_b_c"), (Pascal, "ABC"), (Camel, "aBC")],
    );
}

#[test]
fn digits_start_a_word() {
    check(
        "latency_p99",
        &[
            (Snake, "latency_p_99"),
            (ScreamingSnake, "LATENCY_P_99"),
            (Kebab, "latency-p-99"),
            (Pascal, "LatencyP99"),
            (Camel, "latencyP99"),
        ],
    );
    check(
        "s3_requests",
        &[(Snake, "s_3_requests"), (Pascal, "S3Requests")],
    );
    check(
        "utf8_string",
        &[(Snake, "utf_8_string"), (Pascal, "Utf8String")],
    );
    check(
        "status_5xx",
        &[(Snake, "status_5xx"), (Pascal, "Status5Xx")],
    );
    check(
        "concurrency_avg_10s",
        &[
            (Snake, "concurrency_avg_1_0s"),
            (Pascal, "ConcurrencyAvg10S"),
        ],
    );
    check(
        "e2e_us",
        &[(Snake, "e_2e_us"), (Pascal, "E2EUs"), (Camel, "e2EUs")],
    );
    check(
        "2foo",
        &[(Snake, "2foo"), (Pascal, "2Foo"), (Camel, "2Foo")],
    );
    check("myURL2ABC", &[(Snake, "my_url2abc"), (Pascal, "MyURL2ABC")]);
}

#[test]
fn apply_prefix_appends_delimiter() {
    assert_eq!(Snake.apply_prefix("fooBar"), "foo_bar_");
    assert_eq!(ScreamingSnake.apply_prefix("fooBar"), "FOO_BAR_");
    assert_eq!(Kebab.apply_prefix("fooBar"), "foo-bar-");
    assert_eq!(ScreamingKebab.apply_prefix("fooBar"), "FOO-BAR-");
    assert_eq!(Snake.apply_prefix("foo_"), "foo_");
    assert_eq!(Pascal.apply_prefix("fooBar"), "FooBar");
    assert_eq!(Camel.apply_prefix("fooBar"), "fooBar");
    assert_eq!(Preserve.apply_prefix("foo_"), "foo_");
}

#[test]
fn validation_helpers() {
    assert_eq!(name_contains_uninflectables("foo_bar-1"), None);
    assert_eq!(name_contains_uninflectables("foo.bar"), Some('.'));
    assert_eq!(name_contains_uninflectables("foo bar"), Some(' '));
    assert!(name_ends_with_delimiter("foo_"));
    assert!(name_ends_with_delimiter("foo-"));
    assert!(!name_ends_with_delimiter("foo"));
    assert!(!name_ends_with_delimiter(""));
    assert!(name_contains_dot("foo.bar"));
    assert!(!name_contains_dot("foo_bar"));
}

#[test]
fn surrounding_separators_do_not_change_any_style() {
    for style in [Pascal, Camel, Snake, ScreamingSnake, Kebab, ScreamingKebab] {
        assert_eq!(style.apply("  -_fooBar*  "), style.apply("fooBar"));
    }
}

#[test]
fn screaming_kebab_is_uppercased_kebab() {
    assert_eq!(
        ScreamingKebab.apply("xmlHttp_request2"),
        Kebab.apply("xmlHttp_request2").to_ascii_uppercase()
    );
}

#[test]
fn lower_and_upper_only_touch_ascii() {
    assert_eq!(Lower.apply("ÄbC-D"), "Äbc-d");
    assert_eq!(Upper.apply("äbC-d"), "äBC-D");
}

#[test]
fn ascii_names_relate_across_styles() {
    for name in ["fooBar", "HTTPServer", "a_b-c", "  x9y ", "already_snake", "Mixed-Case_9z"] {
        let snake = CaseStyle::Snake.apply(name);
        let kebab = CaseStyle::Kebab.apply(name);
        assert_eq!(CaseStyle::Preserve.apply(name), name);
        assert_eq!(CaseStyle::Lower.apply(name), name.to_ascii_lowercase());
        assert_eq!(CaseStyle::Upper.apply(name), name.to_ascii_uppercase());
        assert_eq!(CaseStyle::ScreamingSnake.apply(name), snake.to_ascii_uppercase());
        assert_eq!(kebab, snake.replace('_', "-"));
        assert_eq!(CaseStyle::ScreamingKebab.apply(name), kebab.to_ascii_uppercase());
    }
}

#[test]
fn delimited_and_camel_outputs_keep_the_word_characters() {
    for name in ["fooBar", "__HTTPServer__", "a__b--c", "  x9y ", "Mixed-Case_9z", "_"] {
        let word_chars: String = name.chars().filter(|c| c.is_ascii_alphanumeric()).collect();
        for (style, d, upper) in [
            (CaseStyle::Snake, '_', false),
            (CaseStyle::ScreamingSnake, '_', true),
            (CaseStyle::Kebab, '-', false),
        ] {
            let out = style.apply(name);
            assert!(!out.starts_with(d) && !out.ends_with(d));
            assert!(!out.contains(&format!("{d}{d}")));
            assert!(out.chars().all(|c| c == d || c.is_ascii_alphanumeric()));
            let stripped: String = out.chars().filter(|c| *c != d).collect();
            let expected = if upper {
                word_chars.to_ascii_uppercase()
            } else {
                word_chars.to_ascii_lowercase()
            };
            assert_eq!(stripped, expected);
        }
        for style in [CaseStyle::Pascal, CaseStyle::Camel] {
            let out = style.apply(name);
            assert!(out.chars().all(|c| c.is_ascii_alphanumeric()));
            assert_eq!(out.to_ascii_lowercase(), word_chars.to_ascii_lowercase());
        }
    }
}
