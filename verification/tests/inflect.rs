use metrique::case_convert::{name_contains_uninflectables, name_ends_with_delimiter};
use metrique::inflect::{
    inflect_no_prefix, validate_name_inner, HasInflectableName, NameStyle,
};

#[test]
fn descriptor_styles_exhaustive() {
    fn _assert_exhaustive(s: NameStyle) -> usize {
        match s {
            NameStyle::Preserve => 0,
            NameStyle::PascalCase => 1,
            NameStyle::SnakeCase => 2,
            NameStyle::KebabCase => 3,
            NameStyle::ScreamingSnakeCase => 4,
        }
    }

    for (i, &style) in NameStyle::all().iter().enumerate() {
        assert_eq!(
            _assert_exhaustive(style),
            i,
            "NameStyle::ALL[{i}] does not match _assert_exhaustive index"
        );
    }
}

#[test]
fn test_inflect_prefix() {
    let kebab = NameStyle::KebabCase;
    let snake = NameStyle::SnakeCase;
    let pascal = NameStyle::PascalCase;

    assert_eq!(kebab.apply_prefix("Foo"), "foo-");
    assert_eq!(kebab.apply_prefix("foo"), "foo-");
    assert_eq!(kebab.apply_prefix("foo_"), "foo-");
    assert_eq!(kebab.apply_prefix("foo-"), "foo-");
    assert_eq!(kebab.apply_prefix("foo."), "foo-");

    assert_eq!(snake.apply_prefix("Foo"), "foo_");
    assert_eq!(snake.apply_prefix("foo"), "foo_");
    assert_eq!(snake.apply_prefix("foo_"), "foo_");
    assert_eq!(snake.apply_prefix("foo-"), "foo_");
    assert_eq!(snake.apply_prefix("foo."), "foo_");

    assert_eq!(pascal.apply_prefix("Foo"), "Foo");
    assert_eq!(pascal.apply_prefix("foo"), "Foo");
    assert_eq!(pascal.apply_prefix("foo_"), "Foo");
    assert_eq!(pascal.apply_prefix("foo-"), "Foo");
    assert_eq!(pascal.apply_prefix("foo."), "Foo");
}

#[test]
fn test_uninflectables() {
    assert_eq!(name_contains_uninflectables("foo-bar_baz"), None);
    assert_eq!(name_contains_uninflectables("foo:bar"), Some(':'));
    assert_eq!(name_contains_uninflectables("foo.bar"), Some('.'));
}

#[test]
fn test_delimiter() {
    assert!(name_ends_with_delimiter("foo-"));
    assert!(name_ends_with_delimiter("foo_"));
    assert!(!name_ends_with_delimiter("foo."));
    assert!(!name_ends_with_delimiter("foo"));
}

#[test]
fn inflect_digits_and_acronyms_grid() {
    let expected = [
        ("latency_p99", ["latency_p99", "LatencyP99", "latency_p_99", "latency-p-99", "LATENCY_P_99"]),
        ("XMLHttpRequest", ["XMLHttpRequest", "XmlhttpRequest", "xml_http_request", "xml-http-request", "XML_HTTP_REQUEST"]),
        ("FooBARBaz", ["FooBARBaz", "FooBARBaz", "foo_bar_baz", "foo-bar-baz", "FOO_BAR_BAZ"]),
    ];
    for (input, outputs) in expected {
        for (style, want) in NameStyle::all().iter().zip(outputs) {
            assert_eq!(style.apply(input), want, "{} of {input}", style.to_word());
        }
    }
}

#[test]
fn style_words() {
    let words: Vec<&str> = NameStyle::all().iter().map(|s| s.to_word()).collect();
    assert_eq!(words, ["Preserve", "Pascal", "Snake", "Kebab", "ScreamingSnake"]);
    assert_eq!(NameStyle::default(), NameStyle::Preserve);
}

#[test]
fn names_are_validated() {
    assert_eq!(validate_name_inner(""), Err("invalid name: name field must not be empty"));
    assert_eq!(validate_name_inner("a b"), Err("invalid name: name must not contain spaces"));
    assert_eq!(validate_name_inner(" "), Err("invalid name: name must not contain spaces"));
    assert_eq!(validate_name_inner("a_b"), Ok(()));
}

struct Field {
    name: &'static str,
    rename: Option<&'static str>,
}

impl HasInflectableName for Field {
    fn spec_name_override(&self) -> Option<String> {
        self.rename.map(|n| n.to_string())
    }

    fn spec_name(&self) -> String {
        self.name.to_string()
    }

    fn name_override(&self) -> Option<&str> {
        self.rename
    }

    fn name(&self) -> String {
        self.name.to_string()
    }
}

#[test]
fn explicit_names_are_not_inflected() {
    let plain = Field { name: "request_count", rename: None };
    let renamed = Field { name: "request_count", rename: Some("Custom Name") };
    assert_eq!(inflect_no_prefix(NameStyle::PascalCase, &plain), "RequestCount");
    assert_eq!(inflect_no_prefix(NameStyle::PascalCase, &renamed), "Custom Name");
}
