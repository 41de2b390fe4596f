//! Character and string primitives from `std`, with the contracts the rest of
//! the crate relies on.

use vstd::prelude::*;

verus! {

/// Whether `char::is_alphanumeric` holds of `c` (Unicode `Alphabetic` or `Numeric`).
pub uninterp spec fn char_alphanumeric(c: char) -> bool;

/// Whether `char::is_lowercase` holds of `c` (Unicode `Lowercase` property).
pub uninterp spec fn char_lowercase(c: char) -> bool;

/// Whether `char::is_uppercase` holds of `c` (Unicode `Uppercase` property).
pub uninterp spec fn char_uppercase(c: char) -> bool;

/// Whether `char::is_numeric` holds of `c` (Unicode general categories `Nd`, `Nl`, `No`).
pub uninterp spec fn char_numeric(c: char) -> bool;

/// The characters that `char::to_lowercase` yields for `c`.
pub uninterp spec fn char_to_lower(c: char) -> Seq<char>;

/// The characters that `char::to_uppercase` yields for `c`.
pub uninterp spec fn char_to_upper(c: char) -> Seq<char>;

/// Whether `c` is an ASCII character (code point below 128).
pub open spec fn is_ascii_char(c: char) -> bool {
    (c as u32) < 128
}

/// An ASCII letter.
pub open spec fn ascii_alphabetic(c: char) -> bool {
    ('a' <= c && c <= 'z') || ('A' <= c && c <= 'Z')
}

/// An ASCII decimal digit.
pub open spec fn ascii_digit(c: char) -> bool {
    '0' <= c && c <= '9'
}

/// `char::is_alphanumeric`: exact on ASCII (letters and digits), the
/// Unicode property elsewhere.
pub open spec fn alphanumeric_char(c: char) -> bool {
    if is_ascii_char(c) {
        ascii_alphabetic(c) || ascii_digit(c)
    } else {
        char_alphanumeric(c)
    }
}

/// `char::is_lowercase`: exact on ASCII (`a`..=`z`), the Unicode property
/// elsewhere.
pub open spec fn lowercase_char(c: char) -> bool {
    if is_ascii_char(c) {
        'a' <= c && c <= 'z'
    } else {
        char_lowercase(c)
    }
}

/// `char::is_uppercase`: exact on ASCII (`A`..=`Z`), the Unicode property
/// elsewhere.
pub open spec fn uppercase_char(c: char) -> bool {
    if is_ascii_char(c) {
        'A' <= c && c <= 'Z'
    } else {
        char_uppercase(c)
    }
}

/// `char::is_numeric`: exact on ASCII (the digits), the Unicode categories
/// elsewhere.
pub open spec fn numeric_char(c: char) -> bool {
    if is_ascii_char(c) {
        ascii_digit(c)
    } else {
        char_numeric(c)
    }
}

/// The characters of `char::to_lowercase`: exact on ASCII (one character,
/// the ASCII lowercase), the Unicode mapping elsewhere.
pub open spec fn lower_mapping(c: char) -> Seq<char> {
    if is_ascii_char(c) {
        seq![ascii_lower_char(c)]
    } else {
        char_to_lower(c)
    }
}

/// The characters of `char::to_uppercase`: exact on ASCII (one character,
/// the ASCII uppercase), the Unicode mapping elsewhere.
pub open spec fn upper_mapping(c: char) -> Seq<char> {
    if is_ascii_char(c) {
        seq![ascii_upper_char(c)]
    } else {
        char_to_upper(c)
    }
}

/// ASCII lowercase mapping of one character: `A`..=`Z` map to `a`..=`z`,
/// every other character maps to itself.
pub open spec fn ascii_lower_char(c: char) -> char {
    if 'A' <= c && c <= 'Z' {
        ((c as u32) + 32) as char
    } else {
        c
    }
}

/// ASCII uppercase mapping of one character: `a`..=`z` map to `A`..=`Z`,
/// every other character maps to itself.
pub open spec fn ascii_upper_char(c: char) -> char {
    if 'a' <= c && c <= 'z' {
        ((c as u32) - 32) as char
    } else {
        c
    }
}

/// `str::to_ascii_lowercase` of a character sequence.
pub open spec fn ascii_lower(s: Seq<char>) -> Seq<char> {
    s.map_values(|c: char| ascii_lower_char(c))
}

/// `str::to_ascii_uppercase` of a character sequence.
pub open spec fn ascii_upper(s: Seq<char>) -> Seq<char> {
    s.map_values(|c: char| ascii_upper_char(c))
}

/// Wraps `char::is_alphanumeric`. On ASCII its documentation (the Unicode
/// `Alphabetic` and `Numeric` properties) holds of the letters and digits
/// only.
#[verifier::external_body]
pub(crate) fn is_alphanumeric(c: char) -> (r: bool)
    ensures
        r == char_alphanumeric(c),
        r == alphanumeric_char(c),
{
    c.is_alphanumeric()
}

/// Wraps `char::is_lowercase`. On ASCII the `Lowercase` property holds of
/// `a`..=`z` only.
#[verifier::external_body]
pub(crate) fn is_lowercase(c: char) -> (r: bool)
    ensures
        r == char_lowercase(c),
        r == lowercase_char(c),
{
    c.is_lowercase()
}

/// Wraps `char::is_uppercase`. On ASCII the `Uppercase` property holds of
/// `A`..=`Z` only.
#[verifier::external_body]
pub(crate) fn is_uppercase(c: char) -> (r: bool)
    ensures
        r == char_uppercase(c),
        r == uppercase_char(c),
{
    c.is_uppercase()
}

/// Wraps `char::is_numeric`. On ASCII the numeric categories hold of the
/// digits only.
#[verifier::external_body]
pub(crate) fn is_numeric(c: char) -> (r: bool)
    ensures
        r == char_numeric(c),
        r == numeric_char(c),
{
    c.is_numeric()
}

/// Wraps `char::to_lowercase`, collecting the yielded characters. The
/// documentation promises at least one character: a character without a
/// lowercase mapping yields itself, and an ASCII character yields its ASCII
/// lowercase.
#[verifier::external_body]
pub(crate) fn to_lowercase(c: char) -> (r: String)
    ensures
        r@ == char_to_lower(c),
        r@ == lower_mapping(c),
        r@.len() >= 1,
{
    c.to_lowercase().collect()
}

/// Wraps `char::to_uppercase`, collecting the yielded characters. The
/// documentation promises at least one character: a character without an
/// uppercase mapping yields itself, and an ASCII character yields its ASCII
/// uppercase.
#[verifier::external_body]
pub(crate) fn to_uppercase(c: char) -> (r: String)
    ensures
        r@ == char_to_upper(c),
        r@ == upper_mapping(c),
        r@.len() >= 1,
{
    c.to_uppercase().collect()
}

/// Wraps `char::to_ascii_lowercase`.
#[verifier::external_body]
pub(crate) fn char_to_ascii_lowercase(c: char) -> (r: char)
    ensures
        r == ascii_lower_char(c),
{
    c.to_ascii_lowercase()
}

/// Wraps `char::to_ascii_uppercase`.
#[verifier::external_body]
pub(crate) fn char_to_ascii_uppercase(c: char) -> (r: char)
    ensures
        r == ascii_upper_char(c),
{
    c.to_ascii_uppercase()
}

/// Wraps `str::chars`, collecting the characters in order.
#[verifier::external_body]
pub(crate) fn chars_of(s: &str) -> (r: Vec<char>)
    ensures
        r@ == s@,
{
    s.chars().collect()
}

/// Wraps `String::push`.
#[verifier::external_body]
pub(crate) fn push_char(s: &mut String, c: char)
    ensures
        final(s)@ == old(s)@.push(c),
{
    s.push(c)
}

/// Wraps `String::push_str`.
#[verifier::external_body]
pub(crate) fn push_str(s: &mut String, t: &str)
    ensures
        final(s)@ == old(s)@ + t@,
{
    s.push_str(t)
}

/// Builds a `String` out of characters, in order.
pub fn string_from_chars(v: &Vec<char>) -> (r: String)
    ensures
        r@ == v@,
{
    let mut r = String::new();
    let mut i: usize = 0;
    while i < v.len()
        invariant
            i <= v.len(),
            r@ == v@.subrange(0, i as int),
        decreases v.len() - i,
    {
        push_char(&mut r, v[i]);
        i = i + 1;
        assert(r@ =~= v@.subrange(0, i as int));
    }
    assert(v@.subrange(0, v@.len() as int) =~= v@);
    r
}

/// `str::to_ascii_lowercase`.
pub fn str_to_ascii_lowercase(s: &str) -> (r: String)
    ensures
        r@ == ascii_lower(s@),
{
    let v = chars_of(s);
    let mut r = String::new();
    let mut i: usize = 0;
    while i < v.len()
        invariant
            i <= v.len(),
            v@ == s@,
            r@ == ascii_lower(s@.subrange(0, i as int)),
        decreases v.len() - i,
    {
        push_char(&mut r, char_to_ascii_lowercase(v[i]));
        i = i + 1;
        assert(r@ =~= ascii_lower(s@.subrange(0, i as int)));
    }
    assert(s@.subrange(0, s@.len() as int) =~= s@);
    r
}

/// `str::to_ascii_uppercase`.
pub fn str_to_ascii_uppercase(s: &str) -> (r: String)
    ensures
        r@ == ascii_upper(s@),
{
    let v = chars_of(s);
    let mut r = String::new();
    let mut i: usize = 0;
    while i < v.len()
        invariant
            i <= v.len(),
            v@ == s@,
            r@ == ascii_upper(s@.subrange(0, i as int)),
        decreases v.len() - i,
    {
        push_char(&mut r, char_to_ascii_uppercase(v[i]));
        i = i + 1;
        assert(r@ =~= ascii_upper(s@.subrange(0, i as int)));
    }
    assert(s@.subrange(0, s@.len() as int) =~= s@);
    r
}

/// Wraps `str::to_string`.
pub fn str_to_owned(s: &str) -> (r: String)
    ensures
        r@ == s@,
{
    s.to_owned()
}

} // verus!
