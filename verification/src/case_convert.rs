//! Case-conversion primitives for metric field and variant names.
//!
//! Names are split into words by looking at characters and their neighbours:
//! non-alphanumeric characters separate words and are dropped; a numeric
//! character starts a word; a lowercase-to-uppercase transition starts a
//! word. The delimited styles (`snake_case`, `kebab-case`) and the
//! delimiter-free styles (`PascalCase`, `camelCase`) disagree on runs of
//! uppercase letters; the specifications below say exactly how each one
//! treats every character.

use vstd::prelude::*;
use crate::text::{
    alphanumeric_char, lowercase_char, uppercase_char, numeric_char, lower_mapping, upper_mapping,
    is_ascii_char, ascii_lower_char, ascii_upper_char, ascii_alphabetic, ascii_digit,
    ascii_lower, ascii_upper, is_alphanumeric, is_lowercase, is_uppercase, is_numeric,
    to_lowercase, to_uppercase, chars_of, push_char, push_str, str_to_ascii_lowercase,
    str_to_ascii_uppercase, str_to_owned,
};

verus! {

/// A case-conversion style applied to metric field and variant names.
#[derive(Debug, Clone, Copy, PartialEq, Eq)]
#[non_exhaustive]
pub enum CaseStyle {
    /// Keep the name as written.
    Preserve,
    /// `lowercase`
    Lower,
    /// `UPPERCASE`
    Upper,
    /// `PascalCase`
    Pascal,
    /// `camelCase`
    Camel,
    /// `snake_case`
    Snake,
    /// `SCREAMING_SNAKE_CASE`
    ScreamingSnake,
    /// `kebab-case`
    Kebab,
    /// `SCREAMING-KEBAB-CASE`
    ScreamingKebab,
}

/// Which case a converted character is folded to.
#[derive(Debug, Clone, Copy, PartialEq, Eq)]
pub enum Case {
    Lower,
    Upper,
}

/// Characters that separate words and are dropped from the output.
pub open spec fn is_sep(c: char) -> bool {
    !alphanumeric_char(c)
}

/// `s` with its leading separators removed.
pub open spec fn trim_front(s: Seq<char>) -> Seq<char>
    decreases s.len(),
{
    if s.len() > 0 && is_sep(s[0]) {
        trim_front(s.drop_first())
    } else {
        s
    }
}

/// `s` with its trailing separators removed.
pub open spec fn trim_back(s: Seq<char>) -> Seq<char>
    decreases s.len(),
{
    if s.len() > 0 && is_sep(s.last()) {
        trim_back(s.drop_last())
    } else {
        s
    }
}

/// `s` with separators removed from both ends (`str::trim_matches`).
pub open spec fn trim_seps(s: Seq<char>) -> Seq<char> {
    trim_back(trim_front(s))
}

/// The characters a kept character is folded to.
pub open spec fn cased(c: char, case: Case) -> Seq<char> {
    match case {
        Case::Lower => lower_mapping(c),
        Case::Upper => upper_mapping(c),
    }
}

/// What the delimited conversion emits for position `i` of the trimmed name
/// `t`: nothing for a separator; otherwise the folded character, preceded by
/// the delimiter when a separator run precedes it, or when it is not
/// lowercase, is not the first character, and one of its neighbours is
/// lowercase.
pub open spec fn delimited_piece(t: Seq<char>, i: int, delim: char, case: Case) -> Seq<char> {
    if is_sep(t[i]) {
        Seq::empty()
    } else {
        let neighbor_lower = (i > 0 && lowercase_char(t[i - 1])) || (i + 1 < t.len()
            && lowercase_char(t[i + 1]));
        let starts_word = i > 0 && !lowercase_char(t[i]) && neighbor_lower;
        let after_separator = i > 0 && is_sep(t[i - 1]);
        if after_separator || starts_word {
            seq![delim] + cased(t[i], case)
        } else {
            cased(t[i], case)
        }
    }
}

/// The pieces of the first `n` positions of `t`, concatenated.
pub open spec fn delimited_upto(t: Seq<char>, n: nat, delim: char, case: Case) -> Seq<char>
    decreases n,
{
    if n == 0 {
        Seq::empty()
    } else {
        delimited_upto(t, (n - 1) as nat, delim, case) + delimited_piece(
            t,
            n - 1,
            delim,
            case,
        )
    }
}

/// The delimiter-joined conversion of `name`.
pub open spec fn spec_delimited(name: Seq<char>, delim: char, case: Case) -> Seq<char> {
    let t = trim_seps(name);
    delimited_upto(t, t.len(), delim, case)
}

/// Whether position `i` of `t` begins a word in the delimiter-free
/// conversion before any case test: the first position when `first_upper`,
/// and every position after a separator or a numeric character.
pub open spec fn camel_new_word(t: Seq<char>, i: nat, first_upper: bool) -> bool {
    if i == 0 {
        first_upper
    } else {
        is_sep(t[i - 1]) || numeric_char(t[i - 1])
    }
}

/// Whether the kept, non-numeric character at `i` is capitalized as a word
/// start, given the most recently lowered character `last`.
pub open spec fn camel_capitalizes(t: Seq<char>, i: nat, first_upper: bool, last: char) -> bool {
    camel_new_word(t, i, first_upper) || (lowercase_char(last) && uppercase_char(t[i as int]))
}

/// The most recent character before position `i` that the delimiter-free
/// conversion folded to lowercase (a space when there is none).
pub open spec fn camel_last_lowered(t: Seq<char>, i: nat, first_upper: bool) -> char
    decreases i,
{
    if i == 0 {
        ' '
    } else {
        let j = (i - 1) as nat;
        let last = camel_last_lowered(t, j, first_upper);
        let c = t[j as int];
        if !is_sep(c) && !numeric_char(c) && !camel_capitalizes(t, j, first_upper, last) {
            c
        } else {
            last
        }
    }
}

/// What the delimiter-free conversion emits for position `i` of the trimmed
/// name `t`: nothing for a separator, a numeric character unchanged, a word
/// start capitalized (the very first character follows `first_word`), and
/// any other character folded to lowercase.
pub open spec fn camel_piece(t: Seq<char>, i: nat, first_word: Case) -> Seq<char> {
    let first_upper = first_word == Case::Upper;
    let c = t[i as int];
    if is_sep(c) {
        Seq::empty()
    } else if numeric_char(c) {
        seq![c]
    } else if camel_capitalizes(t, i, first_upper, camel_last_lowered(t, i, first_upper)) {
        if i == 0 {
            cased(c, first_word)
        } else {
            cased(c, Case::Upper)
        }
    } else {
        lower_mapping(c)
    }
}

/// The pieces of the first `n` positions of `t`, concatenated.
pub open spec fn camel_upto(t: Seq<char>, n: nat, first_word: Case) -> Seq<char>
    decreases n,
{
    if n == 0 {
        Seq::empty()
    } else {
        camel_upto(t, (n - 1) as nat, first_word) + camel_piece(t, (n - 1) as nat, first_word)
    }
}

/// The delimiter-free conversion of `name`.
pub open spec fn spec_camel_like(name: Seq<char>, first_word: Case) -> Seq<char> {
    let t = trim_seps(name);
    camel_upto(t, t.len(), first_word)
}


proof fn lemma_trim_front_step(s: Seq<char>, i: int)
    requires
        0 <= i < s.len(),
        is_sep(s[i]),
    ensures
        trim_front(s.subrange(i, s.len() as int)) == trim_front(s.subrange(i + 1, s.len() as int)),
{
    assert(s.subrange(i, s.len() as int).drop_first() =~= s.subrange(i + 1, s.len() as int));
}

proof fn lemma_trim_back_step(s: Seq<char>, j: int)
    requires
        0 < j <= s.len(),
        is_sep(s[j - 1]),
    ensures
        trim_back(s.subrange(0, j)) == trim_back(s.subrange(0, j - 1)),
{
    assert(s.subrange(0, j).drop_last() =~= s.subrange(0, j - 1));
}

/// Characters that separate words and are dropped from the output.
pub fn is_separator(c: char) -> (r: bool)
    ensures
        r == is_sep(c),
{
    !is_alphanumeric(c)
}

/// Removes separators from both ends of `v` (`str::trim_matches`).
fn trim_separators(v: &Vec<char>) -> (r: Vec<char>)
    ensures
        r@ == trim_seps(v@),
        r@.len() > 0 ==> !is_sep(r@[0]),
        r@.len() > 0 ==> !is_sep(r@.last()),
{
    let n = v.len();
    let mut a: usize = 0;
    assert(v@.subrange(0, n as int) =~= v@);
    while a < n && is_separator(v[a])
        invariant
            a <= n,
            n == v@.len(),
            trim_front(v@) == trim_front(v@.subrange(a as int, n as int)),
        decreases n - a,
    {
        proof {
            lemma_trim_front_step(v@, a as int);
        }
        a = a + 1;
    }
    let ghost f = v@.subrange(a as int, n as int);
    assert(trim_front(v@) == f);
    let mut b: usize = n;
    assert(f.subrange(0, (n - a) as int) =~= f);
    while b > a && is_separator(v[b - 1])
        invariant
            a <= b <= n,
            n == v@.len(),
            f == v@.subrange(a as int, n as int),
            trim_back(f) == trim_back(f.subrange(0, b - a)),
        decreases b,
    {
        proof {
            lemma_trim_back_step(f, (b - a) as int);
        }
        b = b - 1;
    }
    let mut r: Vec<char> = Vec::new();
    let mut k: usize = a;
    while k < b
        invariant
            a <= k <= b <= n,
            n == v@.len(),
            r@ == v@.subrange(a as int, k as int),
        decreases b - k,
    {
        r.push(v[k]);
        k = k + 1;
        assert(r@ =~= v@.subrange(a as int, k as int));
    }
    assert(f.subrange(0, b - a) =~= r@);
    r
}


/// Appends `c` folded to `case` to `out`.
fn push_cased(out: &mut String, c: char, case: Case)
    ensures
        final(out)@ == old(out)@ + cased(c, case),
        final(out)@.len() > old(out)@.len(),
{
    match case {
        Case::Lower => {
            let s = to_lowercase(c);
            push_str(out, s.as_str());
        },
        Case::Upper => {
            let s = to_uppercase(c);
            push_str(out, s.as_str());
        },
    }
}

/// Converts to a delimiter-joined style (`snake_case`, `kebab-case`, and
/// their screaming variants).
fn delimited(name: &str, delim: char, case: Case) -> (out: String)
    ensures
        out@ == spec_delimited(name@, delim, case),
{
    let v = chars_of(name);
    let t = trim_separators(&v);
    let ghost ts = t@;
    let mut out = String::new();
    // A run of separators contributes a single delimiter, emitted only when
    // the next word turns up.
    let mut pending_delim = false;
    let mut prev: Option<char> = None;
    let mut i: usize = 0;
    while i < t.len()
        invariant
            i <= t.len(),
            ts == t@,
            ts == trim_seps(name@),
            ts.len() > 0 ==> !is_sep(ts[0]),
            out@ == delimited_upto(ts, i as nat, delim, case),
            i > 0 ==> out@.len() > 0,
            pending_delim == (i > 0 && is_sep(ts[i - 1])),
            prev == (if i == 0 { None } else { Some(ts[i - 1]) }),
        decreases t.len() - i,
    {
        let c = t[i];
        let ghost before = out@;
        if is_separator(c) {
            pending_delim = true;
        } else {
            let prev_lower = match prev {
                Some(p) => is_lowercase(p),
                None => false,
            };
            let next_lower = if i + 1 < t.len() {
                is_lowercase(t[i + 1])
            } else {
                false
            };
            let neighbor_is_lowercase = prev_lower || next_lower;
            let out_empty = out.as_str().is_empty();
            let starts_word = !out_empty && !is_lowercase(c) && neighbor_is_lowercase;
            if pending_delim || starts_word {
                push_char(&mut out, delim);
            }
            pending_delim = false;
            push_cased(&mut out, c, case);
        }
        prev = Some(c);
        proof {
            assert(delimited_piece(ts, i as int, delim, case) =~= out@.subrange(
                before.len() as int,
                out@.len() as int,
            ));
            assert(out@ =~= before + delimited_piece(ts, i as int, delim, case));
        }
        i = i + 1;
    }
    out
}

/// Converts to a delimiter-free style (`PascalCase`, `camelCase`).
fn camel_like(name: &str, first_word: Case) -> (out: String)
    ensures
        out@ == spec_camel_like(name@, first_word),
{
    let v = chars_of(name);
    let t = trim_separators(&v);
    let ghost ts = t@;
    let ghost first_upper = first_word == Case::Upper;
    let mut out = String::new();
    // Pascal capitalizes immediately; camel lets the first character fall
    // through so an already-lowercase leading run is preserved verbatim.
    let mut new_word = match first_word {
        Case::Upper => true,
        Case::Lower => false,
    };
    let mut last_lowered = ' ';
    let mut i: usize = 0;
    while i < t.len()
        invariant
            i <= t.len(),
            ts == t@,
            ts == trim_seps(name@),
            first_upper == (first_word == Case::Upper),
            ts.len() > 0 ==> !is_sep(ts[0]),
            out@ == camel_upto(ts, i as nat, first_word),
            i > 0 ==> out@.len() > 0,
            new_word == camel_new_word(ts, i as nat, first_upper),
            last_lowered == camel_last_lowered(ts, i as nat, first_upper),
        decreases t.len() - i,
    {
        let c = t[i];
        let ghost before = out@;
        if is_separator(c) {
            new_word = true;
        } else if is_numeric(c) {
            // Digits pass through and leave the next character to start a word.
            push_char(&mut out, c);
            new_word = true;
        } else if new_word || (is_lowercase(last_lowered) && is_uppercase(c)) {
            // Only the first word answers to `first_word`; later words always
            // start capitalized.
            let case = if out.as_str().is_empty() {
                first_word
            } else {
                Case::Upper
            };
            push_cased(&mut out, c, case);
            new_word = false;
        } else {
            last_lowered = c;
            push_cased(&mut out, c, Case::Lower);
        }
        proof {
            assert(camel_piece(ts, i as nat, first_word) =~= out@.subrange(
                before.len() as int,
                out@.len() as int,
            ));
            assert(out@ =~= before + camel_piece(ts, i as nat, first_word));
        }
        i = i + 1;
    }
    out
}


/// `s` with `d` appended unless it already ends with `d`.
pub open spec fn ensure_suffix(s: Seq<char>, d: char) -> Seq<char> {
    if s.len() > 0 && s.last() == d {
        s
    } else {
        s.push(d)
    }
}

/// The delimiter of a delimited style.
pub open spec fn style_delimiter(style: CaseStyle) -> Option<char> {
    match style {
        CaseStyle::Snake | CaseStyle::ScreamingSnake => Some('_'),
        CaseStyle::Kebab | CaseStyle::ScreamingKebab => Some('-'),
        _ => None,
    }
}

/// `name` converted to `style`.
pub open spec fn spec_apply(style: CaseStyle, name: Seq<char>) -> Seq<char> {
    match style {
        CaseStyle::Preserve => name,
        CaseStyle::Lower => ascii_lower(name),
        CaseStyle::Upper => ascii_upper(name),
        CaseStyle::Pascal => spec_camel_like(name, Case::Upper),
        CaseStyle::Camel => spec_camel_like(name, Case::Lower),
        CaseStyle::Snake => spec_delimited(name, '_', Case::Lower),
        CaseStyle::ScreamingSnake => spec_delimited(name, '_', Case::Upper),
        CaseStyle::Kebab => spec_delimited(name, '-', Case::Lower),
        CaseStyle::ScreamingKebab => ascii_upper(spec_delimited(name, '-', Case::Lower)),
    }
}

/// `name` converted to `style` for use as a prefix: the delimited styles
/// end with their delimiter, every other style is as `spec_apply`.
pub open spec fn spec_apply_prefix(style: CaseStyle, name: Seq<char>) -> Seq<char> {
    match style_delimiter(style) {
        Some(d) => ensure_suffix(spec_apply(style, name), d),
        None => spec_apply(style, name),
    }
}

/// Appends `d` to `s` unless `s` already ends with it.
fn push_unless_ends_with(s: &mut String, d: char)
    ensures
        final(s)@ == ensure_suffix(old(s)@, d),
{
    let v = chars_of(s.as_str());
    let n = v.len();
    if !(n > 0 && v[n - 1] == d) {
        push_char(s, d);
    }
}

impl CaseStyle {
    /// Convert `name` to this case style.
    pub fn apply(self, name: &str) -> (r: String)
        ensures
            r@ == spec_apply(self, name@),
    {
        match self {
            CaseStyle::Preserve => str_to_owned(name),
            CaseStyle::Lower => str_to_ascii_lowercase(name),
            CaseStyle::Upper => str_to_ascii_uppercase(name),
            CaseStyle::Pascal => camel_like(name, Case::Upper),
            CaseStyle::Camel => camel_like(name, Case::Lower),
            CaseStyle::Snake => delimited(name, '_', Case::Lower),
            CaseStyle::ScreamingSnake => delimited(name, '_', Case::Upper),
            CaseStyle::Kebab => delimited(name, '-', Case::Lower),
            CaseStyle::ScreamingKebab => {
                let kebab = delimited(name, '-', Case::Lower);
                str_to_ascii_uppercase(kebab.as_str())
            },
        }
    }

    /// Convert `name` to this case style for use as a prefix, ensuring the
    /// result ends with the style's delimiter so it can be concatenated with
    /// a following name.
    ///
    /// Styles without a delimiter (`PascalCase`, `camelCase`, `lowercase`,
    /// `UPPERCASE`) and `Preserve` are returned unchanged from `apply`.
    pub fn apply_prefix(self, name: &str) -> (r: String)
        ensures
            r@ == spec_apply_prefix(self, name@),
    {
        match self {
            CaseStyle::Snake | CaseStyle::ScreamingSnake => {
                let mut res = self.apply(name);
                push_unless_ends_with(&mut res, '_');
                res
            },
            CaseStyle::Kebab | CaseStyle::ScreamingKebab => {
                let mut res = self.apply(name);
                push_unless_ends_with(&mut res, '-');
                res
            },
            CaseStyle::Preserve
            | CaseStyle::Lower
            | CaseStyle::Upper
            | CaseStyle::Pascal
            | CaseStyle::Camel => self.apply(name),
        }
    }
}

/// Whether `c` can appear in an inflectable name: alphanumeric, `_` or `-`.
pub open spec fn inflectable(c: char) -> bool {
    alphanumeric_char(c) || c == '_' || c == '-'
}

/// Returns the first character in `name` that cannot be inflected (anything
/// other than an alphanumeric, `_`, or `-`), if any.
pub fn name_contains_uninflectables(name: &str) -> (r: Option<char>)
    ensures
        r matches Some(c) ==> exists|i: int|
            0 <= i < name@.len() && name@[i] == c && !inflectable(c) && forall|j: int|
                0 <= j < i ==> inflectable(#[trigger] name@[j]),
        r is None ==> forall|j: int| 0 <= j < name@.len() ==> inflectable(#[trigger] name@[j]),
{
    let v = chars_of(name);
    let mut i: usize = 0;
    while i < v.len()
        invariant
            i <= v.len(),
            v@ == name@,
            forall|j: int| 0 <= j < i ==> inflectable(#[trigger] name@[j]),
        decreases v.len() - i,
    {
        let c = v[i];
        if !is_alphanumeric(c) && c != '_' && c != '-' {
            assert(name@[i as int] == c);
            return Some(c);
        }
        i = i + 1;
    }
    None
}

/// Returns `true` if `name` ends with a `_` or `-` delimiter.
pub fn name_ends_with_delimiter(name: &str) -> (r: bool)
    ensures
        r == (name@.len() > 0 && (name@.last() == '_' || name@.last() == '-')),
{
    let v = chars_of(name);
    let n = v.len();
    if n == 0 {
        false
    } else {
        let last = v[n - 1];
        last == '_' || last == '-'
    }
}

/// Returns `true` if `name` contains a `.`.
pub fn name_contains_dot(name: &str) -> (r: bool)
    ensures
        r == name@.contains('.'),
{
    let v = chars_of(name);
    let mut i: usize = 0;
    while i < v.len()
        invariant
            i <= v.len(),
            v@ == name@,
            forall|j: int| 0 <= j < i ==> name@[j] != '.',
        decreases v.len() - i,
    {
        if v[i] == '.' {
            assert(name@[i as int] == '.');
            return true;
        }
        i = i + 1;
    }
    false
}


/// Whether every character of `s` is a separator.
pub open spec fn all_seps(s: Seq<char>) -> bool {
    forall|i: int| 0 <= i < s.len() ==> is_sep(#[trigger] s[i])
}

proof fn lemma_trim_front_skips_seps(p: Seq<char>, s: Seq<char>)
    requires
        all_seps(p),
    ensures
        trim_front(p + s) == trim_front(s),
    decreases p.len(),
{
    if p.len() > 0 {
        assert((p + s).drop_first() =~= p.drop_first() + s);
        lemma_trim_front_skips_seps(p.drop_first(), s);
    } else {
        assert(p + s =~= s);
    }
}

proof fn lemma_trim_front_append(s: Seq<char>, q: Seq<char>)
    ensures
        !all_seps(s) ==> trim_front(s + q) == trim_front(s) + q,
        all_seps(s) && all_seps(q) ==> trim_front(s + q).len() == 0,
    decreases s.len(),
{
    if s.len() > 0 {
        assert((s + q).drop_first() =~= s.drop_first() + q);
        assert((s + q)[0] == s[0]);
        lemma_trim_front_append(s.drop_first(), q);
        if is_sep(s[0]) {
            if !all_seps(s) {
                let k = choose|k: int| 0 <= k < s.len() && !is_sep(#[trigger] s[k]);
                assert(s.drop_first()[k - 1] == s[k]);
            }
            if all_seps(s) {
                assert forall|i: int| 0 <= i < s.drop_first().len() implies is_sep(
                    #[trigger] s.drop_first()[i],
                ) by {
                    assert(s.drop_first()[i] == s[i + 1]);
                }
            }
        }
    } else {
        assert(s + q =~= q);
        if all_seps(q) {
            lemma_trim_front_skips_seps(q, Seq::empty());
            assert(q + Seq::<char>::empty() =~= q);
        }
    }
}

proof fn lemma_trim_back_skips_seps(s: Seq<char>, q: Seq<char>)
    requires
        all_seps(q),
    ensures
        trim_back(s + q) == trim_back(s),
    decreases q.len(),
{
    if q.len() > 0 {
        assert((s + q).drop_last() =~= s + q.drop_last());
        assert((s + q).last() == q.last());
        lemma_trim_back_skips_seps(s, q.drop_last());
    } else {
        assert(s + q =~= s);
    }
}

/// Separators surrounding a name are dropped: the delimited and
/// delimiter-free styles give the same result with or without them.
pub proof fn lemma_surrounding_separators_are_dropped(
    style: CaseStyle,
    p: Seq<char>,
    name: Seq<char>,
    q: Seq<char>,
)
    requires
        all_seps(p),
        all_seps(q),
        style != CaseStyle::Preserve,
        style != CaseStyle::Lower,
        style != CaseStyle::Upper,
    ensures
        spec_apply(style, p + name + q) == spec_apply(style, name),
{
    assert(p + name + q =~= p + (name + q));
    lemma_trim_front_skips_seps(p, name + q);
    lemma_trim_front_append(name, q);
    lemma_trim_front_append(name, Seq::empty());
    assert(name + Seq::<char>::empty() =~= name);
    if !all_seps(name) {
        lemma_trim_back_skips_seps(trim_front(name), q);
    } else {
        assert(trim_front(name + q).len() == 0);
        assert(trim_front(name).len() == 0);
        assert(trim_front(name + q) =~= trim_front(name));
    }
    assert(trim_seps(p + name + q) == trim_seps(name));
}

/// A prefix in a delimited style always ends with the style's delimiter,
/// and a conversion that already ends with it is not doubled up; the other
/// styles give the plain conversion.
pub proof fn lemma_prefix_delimiter(style: CaseStyle, name: Seq<char>)
    ensures
        style_delimiter(style) matches Some(d) ==> {
            let r = spec_apply_prefix(style, name);
            &&& r.len() > 0
            &&& r.last() == d
            &&& (spec_apply(style, name).len() > 0 && spec_apply(style, name).last() == d) ==> r
                == spec_apply(style, name)
            &&& r.len() <= spec_apply(style, name).len() + 1
        },
        style_delimiter(style) is None ==> spec_apply_prefix(style, name) == spec_apply(
            style,
            name,
        ),
{
}

/// Whether every character of `s` is ASCII (`str::is_ascii`).
pub open spec fn all_ascii(s: Seq<char>) -> bool {
    forall|i: int| 0 <= i < s.len() ==> is_ascii_char(#[trigger] s[i])
}

/// `s` with every `from` replaced by `to` (`str::replace` of one character).
pub open spec fn replace_char(s: Seq<char>, from: char, to: char) -> Seq<char> {
    s.map_values(|c: char| if c == from { to } else { c })
}

proof fn lemma_trim_front_ascii(s: Seq<char>)
    requires
        all_ascii(s),
    ensures
        all_ascii(trim_front(s)),
    decreases s.len(),
{
    if s.len() > 0 && is_sep(s[0]) {
        assert forall|i: int| 0 <= i < s.drop_first().len() implies is_ascii_char(
            #[trigger] s.drop_first()[i],
        ) by {
            assert(s.drop_first()[i] == s[i + 1]);
        }
        lemma_trim_front_ascii(s.drop_first());
    }
}

proof fn lemma_trim_back_ascii(s: Seq<char>)
    requires
        all_ascii(s),
    ensures
        all_ascii(trim_back(s)),
    decreases s.len(),
{
    if s.len() > 0 && is_sep(s.last()) {
        assert forall|i: int| 0 <= i < s.drop_last().len() implies is_ascii_char(
            #[trigger] s.drop_last()[i],
        ) by {
            assert(s.drop_last()[i] == s[i]);
        }
        lemma_trim_back_ascii(s.drop_last());
    }
}

proof fn lemma_ascii_upper_concat(a: Seq<char>, b: Seq<char>)
    ensures
        ascii_upper(a + b) == ascii_upper(a) + ascii_upper(b),
{
    assert(ascii_upper(a + b) =~= ascii_upper(a) + ascii_upper(b));
}

proof fn lemma_replace_concat(a: Seq<char>, b: Seq<char>, from: char, to: char)
    ensures
        replace_char(a + b, from, to) == replace_char(a, from, to) + replace_char(b, from, to),
{
    assert(replace_char(a + b, from, to) =~= replace_char(a, from, to) + replace_char(
        b,
        from,
        to,
    ));
}

proof fn lemma_ascii_upper_of_lower(c: char)
    requires
        is_ascii_char(c),
    ensures
        ascii_upper(lower_mapping(c)) == upper_mapping(c),
{
    let l = ascii_lower_char(c);
    if 'A' <= c && c <= 'Z' {
        assert((l as u32) == (c as u32) + 32);
        assert('a' <= l && l <= 'z');
        assert(((l as u32) - 32) as char == c);
    }
    assert(ascii_upper_char(l) == ascii_upper_char(c));
    assert(ascii_upper(seq![l]) =~= seq![ascii_upper_char(l)]);
}

proof fn lemma_delimited_uppercased(t: Seq<char>, n: nat, d: char)
    requires
        all_ascii(t),
        n <= t.len(),
        !('a' <= d && d <= 'z'),
    ensures
        ascii_upper(delimited_upto(t, n, d, Case::Lower)) == delimited_upto(t, n, d, Case::Upper),
    decreases n,
{
    if n == 0 {
        assert(ascii_upper(Seq::<char>::empty()) =~= Seq::<char>::empty());
    } else {
        let i = n - 1;
        lemma_delimited_uppercased(t, (n - 1) as nat, d);
        lemma_ascii_upper_concat(
            delimited_upto(t, (n - 1) as nat, d, Case::Lower),
            delimited_piece(t, i, d, Case::Lower),
        );
        let c = t[i];
        if is_sep(c) {
            assert(ascii_upper(Seq::<char>::empty()) =~= Seq::<char>::empty());
        } else {
            lemma_ascii_upper_of_lower(c);
            lemma_ascii_upper_concat(seq![d], lower_mapping(c));
            assert(ascii_upper(seq![d]) =~= seq![d]);
        }
    }
}

proof fn lemma_delimiter_replaced(t: Seq<char>, n: nat)
    requires
        all_ascii(t),
        n <= t.len(),
    ensures
        replace_char(delimited_upto(t, n, '_', Case::Lower), '_', '-') == delimited_upto(
            t,
            n,
            '-',
            Case::Lower,
        ),
    decreases n,
{
    if n == 0 {
        assert(replace_char(Seq::<char>::empty(), '_', '-') =~= Seq::<char>::empty());
    } else {
        let i = n - 1;
        lemma_delimiter_replaced(t, (n - 1) as nat);
        lemma_replace_concat(
            delimited_upto(t, (n - 1) as nat, '_', Case::Lower),
            delimited_piece(t, i, '_', Case::Lower),
            '_',
            '-',
        );
        let c = t[i];
        if is_sep(c) {
            assert(replace_char(Seq::<char>::empty(), '_', '-') =~= Seq::<char>::empty());
        } else {
            let l = ascii_lower_char(c);
            if 'A' <= c && c <= 'Z' {
                assert((l as u32) == (c as u32) + 32);
            }
            assert(l != '_');
            assert(replace_char(seq![l], '_', '-') =~= seq![l]);
            lemma_replace_concat(seq!['_'], seq![l], '_', '-');
            assert(replace_char(seq!['_'], '_', '-') =~= seq!['-']);
        }
    }
}

/// On ASCII names the styles relate as their names say: `Preserve` keeps
/// the name, `Lower` and `Upper` are the ASCII case mappings, the screaming
/// styles are the uppercase of their plain forms, and `kebab-case` is
/// `snake_case` with `-` for `_`.
pub proof fn lemma_case_styles_on_ascii_names(name: Seq<char>)
    requires
        all_ascii(name),
    ensures
        spec_apply(CaseStyle::Preserve, name) == name,
        spec_apply(CaseStyle::Lower, name) == ascii_lower(name),
        spec_apply(CaseStyle::Upper, name) == ascii_upper(name),
        spec_apply(CaseStyle::ScreamingSnake, name) == ascii_upper(
            spec_apply(CaseStyle::Snake, name),
        ),
        spec_apply(CaseStyle::Kebab, name) == replace_char(
            spec_apply(CaseStyle::Snake, name),
            '_',
            '-',
        ),
        spec_apply(CaseStyle::ScreamingKebab, name) == ascii_upper(
            spec_apply(CaseStyle::Kebab, name),
        ),
{
    lemma_trim_front_ascii(name);
    lemma_trim_back_ascii(trim_front(name));
    let t = trim_seps(name);
    lemma_delimited_uppercased(t, t.len(), '_');
    lemma_delimiter_replaced(t, t.len());
}

/// An ASCII letter or digit.
pub open spec fn ascii_alphanumeric(c: char) -> bool {
    ascii_alphabetic(c) || ascii_digit(c)
}

/// The characters of `s` that are kept as word characters, in order.
pub open spec fn alphanumerics(s: Seq<char>) -> Seq<char> {
    s.filter(|c: char| alphanumeric_char(c))
}

/// `s` without any occurrence of `d`.
pub open spec fn without_char(s: Seq<char>, d: char) -> Seq<char> {
    s.filter(|c: char| c != d)
}

/// `s` folded to `case` by the ASCII mappings.
pub open spec fn ascii_fold(s: Seq<char>, case: Case) -> Seq<char> {
    match case {
        Case::Lower => ascii_lower(s),
        Case::Upper => ascii_upper(s),
    }
}

/// No two delimiters stand next to each other in `s`.
pub open spec fn no_doubled(s: Seq<char>, d: char) -> bool {
    forall|i: int| 0 <= i < s.len() - 1 ==> !(#[trigger] s[i] == d && s[i + 1] == d)
}

proof fn lemma_ascii_case_char(c: char)
    requires
        is_ascii_char(c),
        alphanumeric_char(c),
    ensures
        ascii_alphanumeric(ascii_lower_char(c)),
        ascii_alphanumeric(ascii_upper_char(c)),
        ascii_lower_char(ascii_upper_char(c)) == ascii_lower_char(c),
        ascii_lower_char(ascii_lower_char(c)) == ascii_lower_char(c),
{
    if 'A' <= c && c <= 'Z' {
        let l = ascii_lower_char(c);
        assert((l as u32) == (c as u32) + 32);
        assert(((l as u32) - 32) as char == c);
    }
    if 'a' <= c && c <= 'z' {
        let u = ascii_upper_char(c);
        assert((u as u32) == (c as u32) - 32);
        assert(((u as u32) + 32) as char == c);
    }
}

proof fn lemma_alphanumerics_push(s: Seq<char>, c: char)
    ensures
        alphanumerics(s.push(c)) == if alphanumeric_char(c) {
            alphanumerics(s).push(c)
        } else {
            alphanumerics(s)
        },
{
    s.lemma_filter_push(c, |c: char| alphanumeric_char(c));
}

proof fn lemma_alphanumerics_trimmed(s: Seq<char>)
    ensures
        alphanumerics(trim_seps(s)) == alphanumerics(s),
{
    lemma_alphanumerics_trim_front(s);
    lemma_alphanumerics_trim_back(trim_front(s));
}

proof fn lemma_alphanumerics_trim_front(s: Seq<char>)
    ensures
        alphanumerics(trim_front(s)) == alphanumerics(s),
    decreases s.len(),
{
    if s.len() > 0 && is_sep(s[0]) {
        let rest = s.drop_first();
        assert(s =~= seq![s[0]] + rest);
        Seq::filter_distributes_over_add(seq![s[0]], rest, |c: char| alphanumeric_char(c));
        Seq::<char>::empty().lemma_filter_push(s[0], |c: char| alphanumeric_char(c));
        assert(Seq::<char>::empty().push(s[0]) =~= seq![s[0]]);
        reveal(Seq::filter);
        assert(Seq::<char>::empty().filter(|c: char| alphanumeric_char(c)) =~= Seq::<char>::empty());
        assert(alphanumerics(s) =~= alphanumerics(rest));
        lemma_alphanumerics_trim_front(rest);
    }
}

proof fn lemma_alphanumerics_trim_back(s: Seq<char>)
    ensures
        alphanumerics(trim_back(s)) == alphanumerics(s),
    decreases s.len(),
{
    if s.len() > 0 && is_sep(s.last()) {
        let rest = s.drop_last();
        assert(s =~= rest.push(s.last()));
        lemma_alphanumerics_push(rest, s.last());
        lemma_alphanumerics_trim_back(rest);
    }
}

proof fn lemma_without_concat(a: Seq<char>, b: Seq<char>, d: char)
    ensures
        without_char(a + b, d) == without_char(a, d) + without_char(b, d),
{
    Seq::filter_distributes_over_add(a, b, |c: char| c != d);
}

proof fn lemma_without_single(x: char, d: char)
    ensures
        without_char(seq![x], d) == if x == d {
            Seq::<char>::empty()
        } else {
            seq![x]
        },
{
    reveal_with_fuel(Seq::filter, 2);
    assert(seq![x].drop_last() =~= Seq::<char>::empty());
    if x == d {
        assert(without_char(seq![x], d) =~= Seq::<char>::empty());
    } else {
        assert(without_char(seq![x], d) =~= seq![x]);
    }
}

proof fn lemma_empty_filters()
    ensures
        alphanumerics(Seq::<char>::empty()) == Seq::<char>::empty(),
        forall|d: char| without_char(Seq::<char>::empty(), d) == Seq::<char>::empty(),
{
    reveal(Seq::filter);
}

proof fn lemma_ascii_fold_push(s: Seq<char>, c: char, case: Case)
    ensures
        ascii_fold(s.push(c), case) == ascii_fold(s, case) + ascii_fold(seq![c], case),
{
    assert(ascii_fold(s.push(c), case) =~= ascii_fold(s, case) + ascii_fold(seq![c], case));
}

/// The shape of a delimited conversion: non-empty, not starting or ending
/// with the delimiter, never doubling it, and made of the delimiter and
/// ASCII letters and digits.
spec fn delimited_shape(out: Seq<char>, d: char) -> bool {
    &&& out.len() > 0
    &&& out[0] != d
    &&& out.last() != d
    &&& no_doubled(out, d)
    &&& forall|i: int| 0 <= i < out.len() ==> #[trigger] out[i] == d || ascii_alphanumeric(out[i])
}

/// The piece a kept character adds: its folded form, after the delimiter
/// when `delimit`.
spec fn kept_piece(m: char, d: char, delimit: bool) -> Seq<char> {
    if delimit {
        seq![d, m]
    } else {
        seq![m]
    }
}

proof fn lemma_shape_extend(prev: Seq<char>, m: char, d: char, delimit: bool)
    requires
        delimited_shape(prev, d),
        ascii_alphanumeric(m),
        d == '_' || d == '-',
    ensures
        delimited_shape(prev + kept_piece(m, d, delimit), d),
        without_char(prev + kept_piece(m, d, delimit), d) == without_char(prev, d).push(m),
{
    lemma_shape_extend_shape(prev, m, d, delimit);
    lemma_shape_extend_without(prev, m, d, delimit);
}

proof fn lemma_shape_extend_without(prev: Seq<char>, m: char, d: char, delimit: bool)
    requires
        ascii_alphanumeric(m),
        d == '_' || d == '-',
    ensures
        without_char(prev + kept_piece(m, d, delimit), d) == without_char(prev, d).push(m),
{
    lemma_without_concat(prev, kept_piece(m, d, delimit), d);
    lemma_without_single(m, d);
    if delimit {
        lemma_without_single(d, d);
        assert(kept_piece(m, d, delimit) =~= seq![d] + seq![m]);
        lemma_without_concat(seq![d], seq![m], d);
        assert(without_char(seq![d] + seq![m], d) =~= seq![m]);
    }
    assert(without_char(prev, d) + seq![m] =~= without_char(prev, d).push(m));
}

proof fn lemma_shape_extend_shape(prev: Seq<char>, m: char, d: char, delimit: bool)
    requires
        delimited_shape(prev, d),
        ascii_alphanumeric(m),
        d == '_' || d == '-',
    ensures
        delimited_shape(prev + kept_piece(m, d, delimit), d),
{
    let out = prev + kept_piece(m, d, delimit);
    let p = prev.len();
    assert(m != d);
    assert(out[0] == prev[0]);
    assert(out.last() == m);
    assert forall|k: int| 0 <= k < out.len() - 1 implies !(#[trigger] out[k] == d && out[k + 1]
        == d) by {
        if k < p - 1 {
            assert(out[k] == prev[k] && out[k + 1] == prev[k + 1]);
        } else if k == p - 1 {
            assert(out[k] == prev.last());
        } else {
            assert(out[k + 1] == m);
        }
    }
    assert forall|k: int| 0 <= k < out.len() implies #[trigger] out[k] == d || ascii_alphanumeric(
        out[k],
    ) by {
        if k < p {
            assert(out[k] == prev[k]);
        } else if k == out.len() - 1 {
            assert(out[k] == m);
        } else {
            assert(out[k] == d);
        }
    }
}

/// The folded form of a kept ASCII character.
spec fn folded_char(c: char, case: Case) -> char {
    match case {
        Case::Lower => ascii_lower_char(c),
        Case::Upper => ascii_upper_char(c),
    }
}

proof fn lemma_kept_piece(t: Seq<char>, i: int, d: char, case: Case)
    requires
        0 <= i < t.len(),
        is_ascii_char(t[i]),
        !is_sep(t[i]),
    ensures
        exists|delimit: bool| delimited_piece(t, i, d, case) == kept_piece(
            folded_char(t[i], case),
            d,
            delimit,
        ),
        ascii_alphanumeric(folded_char(t[i], case)),
        ascii_fold(seq![t[i]], case) == seq![folded_char(t[i], case)],
        i == 0 ==> delimited_piece(t, i, d, case) == kept_piece(folded_char(t[i], case), d, false),
{
    let c = t[i];
    lemma_ascii_case_char(c);
    let m = folded_char(c, case);
    assert(cased(c, case) == seq![m]);
    assert(ascii_fold(seq![c], case) =~= seq![m]);
    if delimited_piece(t, i, d, case) == seq![m] {
        assert(delimited_piece(t, i, d, case) == kept_piece(m, d, false));
    } else {
        assert(delimited_piece(t, i, d, case) =~= kept_piece(m, d, true));
    }
}

/// The facts carried through the delimited conversion of a trimmed ASCII
/// name, up to position `n`.
spec fn delimited_facts(t: Seq<char>, n: nat, d: char, case: Case) -> bool {
    let out = delimited_upto(t, n, d, case);
    &&& delimited_shape(out, d)
    &&& without_char(out, d) == ascii_fold(alphanumerics(t.take(n as int)), case)
}

proof fn lemma_delimited_base(t: Seq<char>, d: char, case: Case)
    requires
        all_ascii(t),
        t.len() > 0,
        !is_sep(t[0]),
        d == '_' || d == '-',
    ensures
        delimited_facts(t, 1, d, case),
{
    let c = t[0];
    let out = delimited_upto(t, 1, d, case);
    lemma_empty_filters();
    lemma_kept_piece(t, 0, d, case);
    let m = folded_char(c, case);
    assert(delimited_upto(t, 0, d, case) =~= Seq::<char>::empty());
    assert(out =~= seq![m]);
    assert(t.take(1) =~= Seq::<char>::empty().push(c));
    assert(t.take(0) =~= Seq::<char>::empty());
    lemma_alphanumerics_push(Seq::<char>::empty(), c);
    lemma_ascii_fold_push(Seq::<char>::empty(), c, case);
    assert(ascii_fold(Seq::<char>::empty(), case) =~= Seq::<char>::empty());
    lemma_without_single(m, d);
    assert(ascii_fold(Seq::<char>::empty(), case) + seq![m] =~= seq![m]);
}

#[verifier::rlimit(30)]
proof fn lemma_delimited_facts(t: Seq<char>, n: nat, d: char, case: Case)
    requires
        all_ascii(t),
        t.len() > 0,
        !is_sep(t[0]),
        1 <= n <= t.len(),
        d == '_' || d == '-',
    ensures
        delimited_facts(t, n, d, case),
    decreases n,
{
    if n == 1 {
        lemma_delimited_base(t, d, case);
    } else {
        let i = n - 1;
        let c = t[i];
        let prev = delimited_upto(t, (n - 1) as nat, d, case);
        let piece = delimited_piece(t, i, d, case);
        let out = delimited_upto(t, n, d, case);
        assert(out == prev + piece);
        assert(t.take(n as int) =~= t.take(i).push(c));
        lemma_alphanumerics_push(t.take(i), c);
        lemma_delimited_facts(t, (n - 1) as nat, d, case);
        if is_sep(c) {
            assert(piece =~= Seq::<char>::empty());
            assert(out =~= prev);
        } else {
            lemma_ascii_fold_push(alphanumerics(t.take(i)), c, case);
            lemma_kept_piece(t, i, d, case);
            let m = folded_char(c, case);
            let delimit = choose|delimit: bool| piece == kept_piece(m, d, delimit);
            lemma_shape_extend(prev, m, d, delimit);
            assert(ascii_fold(alphanumerics(t.take(i)), case) + seq![m] =~= ascii_fold(
                alphanumerics(t.take(i)),
                case,
            ).push(m));
        }
    }
}

/// On an ASCII name, the delimited conversions (`snake_case`,
/// `SCREAMING_SNAKE_CASE`, `kebab-case`) never start or end with the
/// delimiter and never double it; every other character is an ASCII letter
/// or digit; and without the delimiters the result is the name's letters and
/// digits, in order, folded to the style's case.
pub proof fn lemma_delimited_shape(name: Seq<char>, d: char, case: Case)
    requires
        all_ascii(name),
        d == '_' || d == '-',
    ensures
        ({
            let out = spec_delimited(name, d, case);
            &&& out.len() > 0 ==> out[0] != d && out.last() != d
            &&& no_doubled(out, d)
            &&& forall|i: int| 0 <= i < out.len() ==> #[trigger] out[i] == d || ascii_alphanumeric(
                out[i],
            )
            &&& without_char(out, d) == ascii_fold(alphanumerics(name), case)
        }),
{
    lemma_trim_front_ascii(name);
    lemma_trim_back_ascii(trim_front(name));
    lemma_alphanumerics_trimmed(name);
    let t = trim_seps(name);
    lemma_trimmed_ends(name);
    if t.len() > 0 {
        lemma_delimited_facts(t, t.len(), d, case);
        assert(t.take(t.len() as int) =~= t);
    } else {
        assert(spec_delimited(name, d, case) =~= Seq::<char>::empty());
        reveal(Seq::filter);
        assert(alphanumerics(t) =~= Seq::<char>::empty());
        assert(without_char(Seq::<char>::empty(), d) =~= Seq::<char>::empty());
        assert(ascii_fold(Seq::<char>::empty(), case) =~= Seq::<char>::empty());
    }
}

proof fn lemma_camel_piece(t: Seq<char>, i: nat, first_word: Case) -> (x: char)
    requires
        i < t.len(),
        is_ascii_char(t[i as int]),
        !is_sep(t[i as int]),
    ensures
        camel_piece(t, i, first_word) == seq![x],
        ascii_alphanumeric(x),
        ascii_lower_char(x) == ascii_lower_char(t[i as int]),
{
    let c = t[i as int];
    lemma_ascii_case_char(c);
    let first_upper = first_word == Case::Upper;
    if numeric_char(c) {
        c
    } else if camel_capitalizes(t, i, first_upper, camel_last_lowered(t, i, first_upper)) {
        if i == 0 && first_word == Case::Lower {
            ascii_lower_char(c)
        } else {
            ascii_upper_char(c)
        }
    } else {
        ascii_lower_char(c)
    }
}

proof fn lemma_camel_facts(t: Seq<char>, n: nat, first_word: Case)
    requires
        all_ascii(t),
        n <= t.len(),
    ensures
        forall|i: int|
            0 <= i < camel_upto(t, n, first_word).len() ==> ascii_alphanumeric(
                #[trigger] camel_upto(t, n, first_word)[i],
            ),
        ascii_lower(camel_upto(t, n, first_word)) == ascii_lower(alphanumerics(t.take(n as int))),
    decreases n,
{
    lemma_empty_filters();
    if n == 0 {
        assert(t.take(0) =~= Seq::<char>::empty());
        assert(ascii_lower(Seq::<char>::empty()) =~= Seq::<char>::empty());
    } else {
        let i = (n - 1) as nat;
        let c = t[i as int];
        lemma_camel_facts(t, i, first_word);
        let prev = camel_upto(t, i, first_word);
        let out = camel_upto(t, n, first_word);
        assert(t.take(n as int) =~= t.take(i as int).push(c));
        lemma_alphanumerics_push(t.take(i as int), c);
        if is_sep(c) {
            assert(camel_piece(t, i, first_word) =~= Seq::<char>::empty());
            assert(out =~= prev);
        } else {
            let x = lemma_camel_piece(t, i, first_word);
            assert(out =~= prev.push(x));
            assert(ascii_lower(prev.push(x)) =~= ascii_lower(prev).push(ascii_lower_char(x)));
            let a = alphanumerics(t.take(i as int));
            assert(ascii_lower(a.push(c)) =~= ascii_lower(a).push(ascii_lower_char(c)));
            assert forall|k: int| 0 <= k < out.len() implies ascii_alphanumeric(#[trigger] out[k]) by {
                if k < prev.len() {
                    assert(out[k] == prev[k]);
                }
            }
        }
    }
}

/// On an ASCII name, the delimiter-free conversions (`PascalCase`,
/// `camelCase`) consist of ASCII letters and digits only, and they are the
/// name's letters and digits, in order, with only their case changed.
pub proof fn lemma_camel_shape(name: Seq<char>, first_word: Case)
    requires
        all_ascii(name),
    ensures
        forall|i: int|
            0 <= i < spec_camel_like(name, first_word).len() ==> ascii_alphanumeric(
                #[trigger] spec_camel_like(name, first_word)[i],
            ),
        ascii_lower(spec_camel_like(name, first_word)) == ascii_lower(alphanumerics(name)),
{
    lemma_trim_front_ascii(name);
    lemma_trim_back_ascii(trim_front(name));
    lemma_alphanumerics_trimmed(name);
    let t = trim_seps(name);
    lemma_camel_facts(t, t.len(), first_word);
    assert(t.take(t.len() as int) =~= t);
}

proof fn lemma_trim_front_start(s: Seq<char>)
    ensures
        trim_front(s).len() > 0 ==> !is_sep(trim_front(s)[0]),
    decreases s.len(),
{
    if s.len() > 0 && is_sep(s[0]) {
        lemma_trim_front_start(s.drop_first());
    }
}

proof fn lemma_trim_back_start(s: Seq<char>)
    ensures
        trim_back(s).len() > 0 ==> trim_back(s)[0] == s[0],
    decreases s.len(),
{
    if s.len() > 0 && is_sep(s.last()) {
        lemma_trim_back_start(s.drop_last());
    }
}

proof fn lemma_trimmed_ends(s: Seq<char>)
    ensures
        trim_seps(s).len() > 0 ==> !is_sep(trim_seps(s)[0]),
{
    lemma_trim_front_start(s);
    lemma_trim_back_start(trim_front(s));
}

} // verus!
