use std::borrow::Cow;

use metrique::concat::{const_str_value, concatenate_strings, Concatenated, ConstStr, EmptyConstStr};
use metrique::namestyle::{Identity, KebabCase, NameStyle, PascalCase, SnakeCase};

struct ConstFoo;
impl ConstStr for ConstFoo {
    fn spec_val() -> &'static str {
        "Foo_"
    }

    fn val() -> &'static str {
        "Foo_"
    }
}

struct ConstBar;
impl ConstStr for ConstBar {
    fn spec_val() -> &'static str {
        "Bar"
    }

    fn val() -> &'static str {
        "Bar"
    }
}

struct ConstMinus;
impl ConstStr for ConstMinus {
    fn spec_val() -> &'static str {
        "-"
    }

    fn val() -> &'static str {
        "-"
    }
}

type MinusConcated<U, V> = Concatenated<U, Concatenated<ConstMinus, V>>;
type VL1 = MinusConcated<ConstFoo, ConstBar>;
type VL2 = MinusConcated<VL1, VL1>;
type VL3 = MinusConcated<VL2, VL2>;
type VL4 = MinusConcated<VL3, VL3>;
type VL5 = MinusConcated<VL4, VL4>;
type VL6 = MinusConcated<VL5, VL5>;

#[test]
fn main() {
    assert_eq!(
        const_str_value::<Concatenated<ConstFoo, ConstBar>>(),
        "Foo_Bar"
    );
    let vl6 = const_str_value::<VL6>();
    match vl6 {
        Cow::Owned(a) => assert_eq!(
            a,
            "Foo_-Bar-Foo_-Bar-Foo_-Bar-Foo_-Bar-Foo_-Bar-Foo_-Bar-Foo_-Bar-Foo_-Bar-Foo_-Bar-Foo_-Bar-Foo_-Bar-Foo_-Bar-Foo_-Bar-Foo_-Bar-Foo_-Bar-Foo_-Bar-Foo_-Bar-Foo_-Bar-Foo_-Bar-Foo_-Bar-Foo_-Bar-Foo_-Bar-Foo_-Bar-Foo_-Bar-Foo_-Bar-Foo_-Bar-Foo_-Bar-Foo_-Bar-Foo_-Bar-Foo_-Bar-Foo_-Bar-Foo_-Bar"
        ),
        _ => panic!(),
    };
    let vl5 = const_str_value::<VL5>();
    match vl5 {
        Cow::Owned(a) => assert_eq!(
            a,
            "Foo_-Bar-Foo_-Bar-Foo_-Bar-Foo_-Bar-Foo_-Bar-Foo_-Bar-Foo_-Bar-Foo_-Bar-Foo_-Bar-Foo_-Bar-Foo_-Bar-Foo_-Bar-Foo_-Bar-Foo_-Bar-Foo_-Bar-Foo_-Bar"
        ),
        _ => panic!(),
    };
    let vl4 = const_str_value::<VL4>();
    match vl4 {
        Cow::Borrowed(a) => assert_eq!(
            a,
            "Foo_-Bar-Foo_-Bar-Foo_-Bar-Foo_-Bar-Foo_-Bar-Foo_-Bar-Foo_-Bar-Foo_-Bar"
        ),
        _ => panic!(),
    };
}

#[test]
fn empty_const_str_is_borrowed_and_empty() {
    match const_str_value::<EmptyConstStr>() {
        Cow::Borrowed(a) => assert_eq!(a, ""),
        _ => panic!(),
    }
}

#[test]
fn concatenate_strings_fills_exact_buffer() {
    assert_eq!(concatenate_strings::<5>(b"ab", b"cde"), *b"abcde");
    assert_eq!(concatenate_strings::<4>(b"ab", b"cde"), [0u8; 4]);
}

#[test]
fn name_styles_pick_their_inflection_after_the_prefix() {
    assert_eq!(Identity::<EmptyConstStr>::inflect_name("a_b", "AB", "a_b", "a-b"), "a_b");
    assert!(matches!(
        Identity::<EmptyConstStr>::inflect_name("a_b", "AB", "a_b", "a-b"),
        Cow::Borrowed(_)
    ));
    assert_eq!(PascalCase::<ConstFoo>::inflect_name("a_b", "AB", "a_b", "a-b"), "Foo_AB");
    assert_eq!(SnakeCase::<ConstBar>::inflect_name("a_b", "AB", "a_b", "a-b"), "Bara_b");
    assert_eq!(
        KebabCase::<Concatenated<ConstFoo, ConstMinus>>::inflect_name("a_b", "AB", "a_b", "a-b"),
        "Foo_-a-b"
    );
}

#[test]
fn short_concatenation_is_shared_between_requests() {
    let first = const_str_value::<VL4>();
    let second = const_str_value::<VL4>();
    match (first, second) {
        (Cow::Borrowed(a), Cow::Borrowed(b)) => {
            assert_eq!(a, b);
            assert_eq!(a.as_ptr(), b.as_ptr());
        }
        _ => panic!(),
    }
}
