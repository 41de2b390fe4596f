//! Name styles: which inflection of a name to use, and which prefix to put
//! before it.

use std::borrow::Cow;
use std::marker::PhantomData;
use vstd::prelude::*;
use crate::concat::{EmptyConstStr, MaybeConstStr};
use crate::text::push_str;

verus! {

/// Helper trait to make `NameStyle` sealed.
pub trait NameStyleInternal {}

/// Describes a name style: a prefix, and a choice among the identity,
/// `PascalCase`, `snake_case` and `kebab-case` inflections of a name.
pub trait NameStyle: NameStyleInternal {
    /// The same prefix, in `kebab-case`.
    type KebabCase;

    /// The same prefix, in `PascalCase`.
    type PascalCase;

    /// The same prefix, in `snake_case`.
    type SnakeCase;

    /// The prefix put before every inflected name.
    spec fn spec_prefix() -> Seq<char>;

    /// The inflection this style picks.
    spec fn spec_pick(
        identity: Seq<char>,
        pascal: Seq<char>,
        snake: Seq<char>,
        kebab: Seq<char>,
    ) -> Seq<char>;

    /// Inflects a name: the prefix followed by the picked inflection.
    fn inflect_name(
        identity: &'static str,
        pascal: &'static str,
        snake: &'static str,
        kebab: &'static str,
    ) -> (r: Cow<'static, str>)
        ensures
            r@ == Self::spec_prefix() + Self::spec_pick(identity@, pascal@, snake@, kebab@),
    ;
}

/// `prefix` followed by `name`, borrowing `name` when the prefix is empty.
fn prefixed<PREFIX: MaybeConstStr>(name: &'static str) -> (r: Cow<'static, str>)
    ensures
        r@ == PREFIX::spec_value() + name@,
        (r matches Cow::Borrowed(b)) <==> PREFIX::spec_value().len() == 0,
{
    if PREFIX::is_empty() {
        assert(PREFIX::spec_value() + name@ =~= name@);
        Cow::Borrowed(name)
    } else {
        let mut result = String::new();
        PREFIX::extend(&mut result);
        push_str(&mut result, name);
        Cow::Owned(result)
    }
}

/// Inflects names to the identity case.
pub struct Identity<PREFIX: MaybeConstStr = EmptyConstStr>(PhantomData<PREFIX>);

/// Inflects names to `PascalCase`.
pub struct PascalCase<PREFIX: MaybeConstStr = EmptyConstStr>(PhantomData<PREFIX>);

/// Inflects names to `snake_case`.
pub struct SnakeCase<PREFIX: MaybeConstStr = EmptyConstStr>(PhantomData<PREFIX>);

/// Inflects names to `kebab-case`.
pub struct KebabCase<PREFIX: MaybeConstStr = EmptyConstStr>(PhantomData<PREFIX>);

impl<PREFIX: MaybeConstStr> NameStyleInternal for Identity<PREFIX> {}

impl<PREFIX: MaybeConstStr> NameStyleInternal for PascalCase<PREFIX> {}

impl<PREFIX: MaybeConstStr> NameStyleInternal for SnakeCase<PREFIX> {}

impl<PREFIX: MaybeConstStr> NameStyleInternal for KebabCase<PREFIX> {}

impl<PREFIX: MaybeConstStr> NameStyle for Identity<PREFIX> {
    type KebabCase = KebabCase<PREFIX>;

    type PascalCase = PascalCase<PREFIX>;

    type SnakeCase = SnakeCase<PREFIX>;

    open spec fn spec_prefix() -> Seq<char> {
        PREFIX::spec_value()
    }

    open spec fn spec_pick(
        identity: Seq<char>,
        pascal: Seq<char>,
        snake: Seq<char>,
        kebab: Seq<char>,
    ) -> Seq<char> {
        identity
    }

    fn inflect_name(
        identity: &'static str,
        pascal: &'static str,
        snake: &'static str,
        kebab: &'static str,
    ) -> (r: Cow<'static, str>) {
        prefixed::<PREFIX>(identity)
    }
}

impl<PREFIX: MaybeConstStr> NameStyle for PascalCase<PREFIX> {
    type KebabCase = KebabCase<PREFIX>;

    type PascalCase = PascalCase<PREFIX>;

    type SnakeCase = SnakeCase<PREFIX>;

    open spec fn spec_prefix() -> Seq<char> {
        PREFIX::spec_value()
    }

    open spec fn spec_pick(
        identity: Seq<char>,
        pascal: Seq<char>,
        snake: Seq<char>,
        kebab: Seq<char>,
    ) -> Seq<char> {
        pascal
    }

    fn inflect_name(
        identity: &'static str,
        pascal: &'static str,
        snake: &'static str,
        kebab: &'static str,
    ) -> (r: Cow<'static, str>) {
        prefixed::<PREFIX>(pascal)
    }
}

impl<PREFIX: MaybeConstStr> NameStyle for SnakeCase<PREFIX> {
    type KebabCase = KebabCase<PREFIX>;

    type PascalCase = PascalCase<PREFIX>;

    type SnakeCase = SnakeCase<PREFIX>;

    open spec fn spec_prefix() -> Seq<char> {
        PREFIX::spec_value()
    }

    open spec fn spec_pick(
        identity: Seq<char>,
        pascal: Seq<char>,
        snake: Seq<char>,
        kebab: Seq<char>,
    ) -> Seq<char> {
        snake
    }

    fn inflect_name(
        identity: &'static str,
        pascal: &'static str,
        snake: &'static str,
        kebab: &'static str,
    ) -> (r: Cow<'static, str>) {
        prefixed::<PREFIX>(snake)
    }
}

impl<PREFIX: MaybeConstStr> NameStyle for KebabCase<PREFIX> {
    type KebabCase = KebabCase<PREFIX>;

    type PascalCase = PascalCase<PREFIX>;

    type SnakeCase = SnakeCase<PREFIX>;

    open spec fn spec_prefix() -> Seq<char> {
        PREFIX::spec_value()
    }

    open spec fn spec_pick(
        identity: Seq<char>,
        pascal: Seq<char>,
        snake: Seq<char>,
        kebab: Seq<char>,
    ) -> Seq<char> {
        kebab
    }

    fn inflect_name(
        identity: &'static str,
        pascal: &'static str,
        snake: &'static str,
        kebab: &'static str,
    ) -> (r: Cow<'static, str>) {
        prefixed::<PREFIX>(kebab)
    }
}

} // verus!
