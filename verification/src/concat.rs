//! Strings that are known when a type is chosen: constant strings and their
//! concatenations.
//!
//! A value is "available as a shared string" (`have_val`) for a constant
//! string, and for a concatenation of two such values whose UTF-8 length is at
//! most `CONCAT_INLINE_LIMIT` bytes. A constant is borrowed as it stands; a
//! short concatenation is interned, so that each distinct value is stored once
//! for the life of the process and every request borrows that one copy.
//! Longer concatenations are built afresh, as an owned string, on each request.

use std::borrow::Cow;
use std::marker::PhantomData;
use vstd::prelude::*;
use vstd::string::StringSliceAdditionalSpecFns;
use crate::text::push_str;

verus! {

/// Concatenations of at most this many bytes are interned and shared; longer
/// ones are built on each request.
pub const CONCAT_INLINE_LIMIT: usize = 100;

/// A trait representing a constant string lifted to a type.
pub trait ConstStr {
    /// The constant string value.
    spec fn spec_val() -> &'static str;

    /// The constant string value.
    fn val() -> (r: &'static str)
        ensures
            r == Self::spec_val(),
    ;
}

/// An empty constant string.
pub struct EmptyConstStr;

impl ConstStr for EmptyConstStr {
    open spec fn spec_val() -> &'static str {
        ""
    }

    fn val() -> (r: &'static str) {
        ""
    }
}

/// Sealing trait: the string-valued types are the constant strings and
/// their concatenations.
pub trait SealedMaybeConstStr {}

/// A string that is possibly available as a constant.
pub trait MaybeConstStr: SealedMaybeConstStr {
    /// The string's value.
    spec fn spec_value() -> Seq<char>;

    /// The UTF-8 length of the string's value, in bytes.
    spec fn spec_byte_len() -> nat;

    /// Whether the value is available as a shared `'static` string.
    spec fn spec_have_val() -> bool;

    /// Whether the value is available as a shared `'static` string.
    fn have_val() -> (b: bool)
        ensures
            b == Self::spec_have_val(),
    ;

    /// The UTF-8 length of the value in bytes, saturating at `usize::MAX`.
    fn byte_len() -> (n: usize)
        ensures
            n == (if Self::spec_byte_len() <= usize::MAX {
                Self::spec_byte_len()
            } else {
                usize::MAX as nat
            }),
    ;

    /// Whether the value is the empty string.
    fn is_empty() -> (b: bool)
        ensures
            b == (Self::spec_value().len() == 0),
    ;

    /// The value as a shared `'static` string, when it is available as one
    /// (otherwise the empty string).
    fn maybe_val() -> (r: &'static str)
        ensures
            Self::spec_have_val() ==> r@ == Self::spec_value(),
    ;

    /// Appends the value to `into`.
    fn extend(into: &mut String)
        ensures
            final(into)@ == old(into)@ + Self::spec_value(),
    ;
}

impl<T: ConstStr> SealedMaybeConstStr for T {}

impl<T: ConstStr> MaybeConstStr for T {
    open spec fn spec_value() -> Seq<char> {
        T::spec_val()@
    }

    open spec fn spec_byte_len() -> nat {
        (T::spec_val().spec_bytes().len() as usize) as nat
    }

    open spec fn spec_have_val() -> bool {
        true
    }

    fn have_val() -> (b: bool) {
        true
    }

    fn byte_len() -> (n: usize) {
        T::val().len()
    }

    fn is_empty() -> (b: bool) {
        T::val().is_empty()
    }

    fn maybe_val() -> (r: &'static str) {
        T::val()
    }

    fn extend(into: &mut String) {
        push_str(into, T::val());
    }
}

/// The concatenation of two strings.
pub struct Concatenated<S, T>(PhantomData<S>, PhantomData<T>);

impl<S: MaybeConstStr, T: MaybeConstStr> SealedMaybeConstStr for Concatenated<S, T> {}

/// Interns a string in the process-wide string cache of the `ustr` crate.
///
/// Wraps `ustr::ustr` and `Ustr::as_str`. The contract claims only that the
/// returned string has the contents of `s`. Unstated here, as the crate
/// documents it: each distinct string is stored once for the life of the
/// process, and later calls with equal contents return that same storage.
/// The cache panics only when its allocation size would overflow `usize`.
#[verifier::external_body]
fn intern_str(s: &str) -> (r: &'static str)
    ensures
        r@ == s@,
{
    ustr::ustr(s).as_str()
}

impl<S: MaybeConstStr, T: MaybeConstStr> MaybeConstStr for Concatenated<S, T> {
    open spec fn spec_value() -> Seq<char> {
        S::spec_value() + T::spec_value()
    }

    open spec fn spec_byte_len() -> nat {
        S::spec_byte_len() + T::spec_byte_len()
    }

    open spec fn spec_have_val() -> bool {
        S::spec_have_val() && T::spec_have_val() && S::spec_byte_len() + T::spec_byte_len()
            <= CONCAT_INLINE_LIMIT
    }

    fn have_val() -> (b: bool) {
        S::have_val() && T::have_val() && S::byte_len().saturating_add(T::byte_len())
            <= CONCAT_INLINE_LIMIT
    }

    fn byte_len() -> (n: usize) {
        S::byte_len().saturating_add(T::byte_len())
    }

    fn is_empty() -> (b: bool) {
        S::is_empty() && T::is_empty()
    }

    fn maybe_val() -> (r: &'static str) {
        if Self::have_val() {
            let mut buf = String::new();
            Self::extend(&mut buf);
            intern_str(buf.as_str())
        } else {
            ""
        }
    }

    fn extend(into: &mut String) {
        S::extend(into);
        T::extend(into);
        proof {
            assert(into@ =~= old(into)@ + (S::spec_value() + T::spec_value()));
        }
    }
}

/// Concatenates `x` and `y` into a buffer of exactly `N` bytes, or returns
/// a zeroed buffer when `N` is not their total length.
pub fn concatenate_strings<const N: usize>(x: &[u8], y: &[u8]) -> (buf: [u8; N])
    ensures
        N == x@.len() + y@.len() ==> buf@ == x@ + y@,
        N != x@.len() + y@.len() ==> buf@ == Seq::new(N as nat, |i: int| 0u8),
{
    let mut buf = [0u8; N];
    assert(buf@ =~= Seq::new(N as nat, |i: int| 0u8));
    if N < x.len() || N - x.len() != y.len() {
        return buf;
    }
    let mut i: usize = 0;
    while i < x.len()
        invariant
            N == x@.len() + y@.len(),
            i <= x@.len(),
            buf@.len() == N,
            forall|k: int| 0 <= k < i ==> buf@[k] == x@[k],
        decreases x.len() - i,
    {
        buf[i] = x[i];
        i += 1;
    }
    let mut i: usize = 0;
    while i < y.len()
        invariant
            N == x@.len() + y@.len(),
            i <= y@.len(),
            buf@.len() == N,
            forall|k: int| 0 <= k < x@.len() ==> buf@[k] == x@[k],
            forall|k: int| 0 <= k < i ==> buf@[x@.len() + k] == y@[k],
        decreases y.len() - i,
    {
        buf[x.len() + i] = y[i];
        i += 1;
    }
    assert(buf@ =~= x@ + y@) by {
        assert forall|k: int| x@.len() <= k < N implies buf@[k] == (x@ + y@)[k] by {
            assert(buf@[x@.len() + (k - x@.len())] == y@[k - x@.len()]);
        }
    }
    buf
}

/// Whether `const_str_value` of a type borrows a shared string (rather than
/// building an owned one).
pub open spec fn is_borrowed(c: Cow<'static, str>) -> bool {
    c matches Cow::Borrowed(_)
}

/// Returns the value of a given `MaybeConstStr`. The value is borrowed when
/// it is available as a shared string (a constant, or an interned short
/// concatenation), and built as an owned string otherwise.
pub fn const_str_value<S: MaybeConstStr>() -> (r: Cow<'static, str>)
    ensures
        r@ == S::spec_value(),
        is_borrowed(r) == S::spec_have_val(),
{
    if S::have_val() {
        Cow::Borrowed(S::maybe_val())
    } else {
        let mut buf = String::new();
        S::extend(&mut buf);
        Cow::Owned(buf)
    }
}

} // verus!
