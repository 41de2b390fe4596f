//! Name styles accepted by the `#[metrics(rename_all = ...)]` attribute, and
//! the validation of metric names.

use vstd::prelude::*;
use crate::case_convert::{CaseStyle, spec_apply, spec_apply_prefix};

verus! {

/// A container-level renaming style.
#[derive(Debug, Clone, Copy, PartialEq, Eq, Default)]
pub enum NameStyle {
    /// `PascalCase`
    PascalCase,
    /// `snake_case`
    SnakeCase,
    /// `SCREAMING_SNAKE_CASE`
    ScreamingSnakeCase,
    /// `kebab-case`
    KebabCase,
    /// Names are kept as written.
    #[default]
    Preserve,
}

/// The case-conversion style a renaming style maps onto.
pub open spec fn spec_case_style(style: NameStyle) -> CaseStyle {
    match style {
        NameStyle::PascalCase => CaseStyle::Pascal,
        NameStyle::SnakeCase => CaseStyle::Snake,
        NameStyle::ScreamingSnakeCase => CaseStyle::ScreamingSnake,
        NameStyle::KebabCase => CaseStyle::Kebab,
        NameStyle::Preserve => CaseStyle::Preserve,
    }
}

/// The index of a style in `NameStyle::all()`.
pub open spec fn style_index(style: NameStyle) -> int {
    match style {
        NameStyle::Preserve => 0,
        NameStyle::PascalCase => 1,
        NameStyle::SnakeCase => 2,
        NameStyle::KebabCase => 3,
        NameStyle::ScreamingSnakeCase => 4,
    }
}

impl NameStyle {
    /// All styles in index order.
    pub fn all() -> (r: [NameStyle; 5])
        ensures
            forall|i: int| 0 <= i < 5 ==> style_index(#[trigger] r@[i]) == i,
    {
        [
            NameStyle::Preserve,
            NameStyle::PascalCase,
            NameStyle::SnakeCase,
            NameStyle::KebabCase,
            NameStyle::ScreamingSnakeCase,
        ]
    }

    /// Map this style onto the shared `CaseStyle` primitive.
    pub fn to_case_style(self) -> (r: CaseStyle)
        ensures
            r == spec_case_style(self),
    {
        match self {
            NameStyle::PascalCase => CaseStyle::Pascal,
            NameStyle::SnakeCase => CaseStyle::Snake,
            NameStyle::ScreamingSnakeCase => CaseStyle::ScreamingSnake,
            NameStyle::KebabCase => CaseStyle::Kebab,
            NameStyle::Preserve => CaseStyle::Preserve,
        }
    }

    /// Convert `name` to this style.
    pub fn apply(self, name: &str) -> (r: String)
        ensures
            r@ == spec_apply(spec_case_style(self), name@),
    {
        self.to_case_style().apply(name)
    }

    /// Convert `name` to this style for use as a prefix.
    pub fn apply_prefix(self, name: &str) -> (r: String)
        ensures
            r@ == spec_apply_prefix(spec_case_style(self), name@),
    {
        self.to_case_style().apply_prefix(name)
    }

    /// A one-word name of this style.
    pub fn to_word(self) -> (r: &'static str)
        ensures
            r@ == (match self {
                NameStyle::PascalCase => "Pascal"@,
                NameStyle::SnakeCase => "Snake"@,
                NameStyle::ScreamingSnakeCase => "ScreamingSnake"@,
                NameStyle::Preserve => "Preserve"@,
                NameStyle::KebabCase => "Kebab"@,
            }),
    {
        match self {
            NameStyle::PascalCase => "Pascal",
            NameStyle::SnakeCase => "Snake",
            NameStyle::ScreamingSnakeCase => "ScreamingSnake",
            NameStyle::Preserve => "Preserve",
            NameStyle::KebabCase => "Kebab",
        }
    }
}

/// Checks a metric name given in an attribute: it must be non-empty and
/// contain no space.
pub fn validate_name_inner(name: &str) -> (r: Result<(), &'static str>)
    ensures
        name@.len() == 0 ==> r == Err::<(), &'static str>(
            "invalid name: name field must not be empty",
        ),
        name@.len() > 0 && name@.contains(' ') ==> r == Err::<(), &'static str>(
            "invalid name: name must not contain spaces",
        ),
        name@.len() > 0 && !name@.contains(' ') ==> r is Ok,
{
    if name.is_empty() {
        return Err("invalid name: name field must not be empty");
    }
    let v = crate::text::chars_of(name);
    let mut i: usize = 0;
    while i < v.len()
        invariant
            i <= v.len(),
            v@ == name@,
            forall|j: int| 0 <= j < i ==> name@[j] != ' ',
        decreases v.len() - i,
    {
        if v[i] == ' ' {
            assert(name@[i as int] == ' ');
            return Err("invalid name: name must not contain spaces");
        }
        i = i + 1;
    }
    Ok(())
}

/// A field or variant whose name can be inflected.
pub trait HasInflectableName {
    /// The name given explicitly, if any.
    spec fn spec_name_override(&self) -> Option<String>;

    /// The name as written in the source.
    spec fn spec_name(&self) -> String;

    /// The name given explicitly, if any; it is used as written.
    fn name_override(&self) -> (r: Option<&str>)
        ensures
            r matches Some(n) ==> (self.spec_name_override() matches Some(o) && o@ == n@),
            r is None ==> self.spec_name_override() is None,
    ;

    /// The name as written in the source.
    fn name(&self) -> (r: String)
        ensures
            r@ == self.spec_name()@,
    ;
}

/// The inflected name of a field or variant: the explicit name when there
/// is one, else its source name converted to the container's style.
pub open spec fn spec_inflect_no_prefix<F: HasInflectableName>(
    rename_all: NameStyle,
    field: &F,
) -> Seq<char> {
    match field.spec_name_override() {
        Some(n) => n@,
        None => spec_apply(spec_case_style(rename_all), field.spec_name()@),
    }
}

/// Inflect a field or variant name with the container's renaming style,
/// unless the name was given explicitly.
pub fn inflect_no_prefix<F: HasInflectableName>(rename_all: NameStyle, field: &F) -> (r: String)
    ensures
        r@ == spec_inflect_no_prefix(rename_all, field),
{
    if let Some(name_override) = field.name_override() {
        return crate::text::str_to_owned(name_override);
    }
    let base = field.name();
    rename_all.apply(base.as_str())
}

} // verus!
