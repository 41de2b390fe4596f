//! Validation of the options given on a metrics container and on its
//! fields: which of them may be combined, and what a valid set means; and
//! the rule that every field of an aggregated struct is a key or names a
//! strategy.
//!
//! The options arrive as plain values (whether each flag is present, and the
//! values given for `name`, `unit`, `format` and `prefix`); the unit and
//! format values are carried through unexamined.

use vstd::prelude::*;
use crate::inflect::validate_name_inner;
use crate::text::push_str;

verus! {

/// An option of a metric field, as named in error messages.
#[derive(Clone, Copy, Debug, PartialEq, Eq, Structural)]
pub enum FieldOption {
    Flatten,
    FlattenEntry,
    Timestamp,
    Ignore,
    Name,
    Unit,
    Format,
}

impl FieldOption {
    /// The option's name as it is written in the attribute.
    pub open spec fn spec_word(self) -> Seq<char> {
        match self {
            FieldOption::Flatten => "flatten"@,
            FieldOption::FlattenEntry => "flatten_entry"@,
            FieldOption::Timestamp => "timestamp"@,
            FieldOption::Ignore => "ignore"@,
            FieldOption::Name => "name"@,
            FieldOption::Unit => "unit"@,
            FieldOption::Format => "format"@,
        }
    }

    /// The option's name as it is written in the attribute.
    pub fn word(self) -> (r: &'static str)
        ensures
            r@ == self.spec_word(),
    {
        match self {
            FieldOption::Flatten => "flatten",
            FieldOption::FlattenEntry => "flatten_entry",
            FieldOption::Timestamp => "timestamp",
            FieldOption::Ignore => "ignore",
            FieldOption::Name => "name",
            FieldOption::Unit => "unit",
            FieldOption::Format => "format",
        }
    }
}

/// The options given on a metric field.
pub struct RawFieldAttrs<P> {
    pub flatten: bool,
    pub flatten_entry: bool,
    pub no_close: bool,
    pub timestamp: bool,
    pub ignore: bool,
    pub unit: Option<P>,
    pub format: Option<P>,
    pub name: Option<String>,
    pub prefix: Option<String>,
}

/// What a field is, once its options are validated.
pub enum FieldKind<P> {
    /// Excluded from the metrics.
    Ignore,
    /// A nested metric struct whose fields are written in place, under an
    /// optional prefix.
    Flatten { prefix: Option<String> },
    /// A nested value that closes into an entry written in place.
    FlattenEntry,
    /// The entry's timestamp.
    Timestamp,
    /// An ordinary metric field, with its optional name, unit and format.
    Field { name: Option<String>, unit: Option<P>, format: Option<P> },
}

/// A validated set of field options.
pub struct FieldAttrs<P> {
    /// Whether the field's value is closed before it is written.
    pub close: bool,
    pub kind: FieldKind<P>,
}

/// Why a set of field options is refused.
#[derive(Clone, Copy, Debug, PartialEq, Eq)]
pub enum FieldAttrError {
    /// Two options that exclude each other; `earlier` is the one that was
    /// taken first.
    Combine { earlier: FieldOption, later: FieldOption },
    /// The explicit name is not a valid metric name.
    InvalidName(&'static str),
    /// `ignore` together with `no_close`.
    IgnoreWithNoClose,
    /// `prefix` on a field that is not flattened.
    PrefixWithoutFlatten,
}

/// One step of choosing the field's kind among the exclusive flags, taken
/// in the order `flatten`, `flatten_entry`, `timestamp`, `ignore`: a present
/// flag is taken when none was, and refused when one already was.
pub open spec fn kind_step(
    so_far: Result<Option<FieldOption>, FieldAttrError>,
    present: bool,
    option: FieldOption,
) -> Result<Option<FieldOption>, FieldAttrError> {
    match so_far {
        Err(e) => Err(e),
        Ok(None) => if present {
            Ok(Some(option))
        } else {
            Ok(None)
        },
        Ok(Some(earlier)) => if present {
            Err(FieldAttrError::Combine { earlier, later: option })
        } else {
            Ok(Some(earlier))
        },
    }
}

/// The exclusive flag that decides the field's kind, if any, or the error
/// for the first two that are both present.
pub open spec fn spec_kind_choice<P>(raw: RawFieldAttrs<P>) -> Result<
    Option<FieldOption>,
    FieldAttrError,
> {
    kind_step(
        kind_step(
            kind_step(kind_step(Ok(None), raw.flatten, FieldOption::Flatten), raw.flatten_entry,
                FieldOption::FlattenEntry),
            raw.timestamp,
            FieldOption::Timestamp,
        ),
        raw.ignore,
        FieldOption::Ignore,
    )
}

/// The error for an explicit name that is not a valid metric name, if it is
/// not.
pub open spec fn spec_name_error(name: Seq<char>) -> Option<&'static str> {
    if name.len() == 0 {
        Some("invalid name: name field must not be empty")
    } else if name.contains(' ') {
        Some("invalid name: name must not contain spaces")
    } else {
        None
    }
}

/// The first of `name`, `unit`, `format` that is given, which a field of an
/// exclusive kind may not have.
pub open spec fn spec_field_option_given<P>(raw: RawFieldAttrs<P>) -> Option<FieldOption> {
    if raw.name is Some {
        Some(FieldOption::Name)
    } else if raw.unit is Some {
        Some(FieldOption::Unit)
    } else if raw.format is Some {
        Some(FieldOption::Format)
    } else {
        None
    }
}

/// The kind decided by the exclusive flag `option` (or its absence).
pub open spec fn spec_kind<P>(raw: RawFieldAttrs<P>, option: Option<FieldOption>) -> FieldKind<P> {
    match option {
        Some(FieldOption::Flatten) => FieldKind::Flatten { prefix: raw.prefix },
        Some(FieldOption::FlattenEntry) => FieldKind::FlattenEntry,
        Some(FieldOption::Timestamp) => FieldKind::Timestamp,
        Some(FieldOption::Ignore) => FieldKind::Ignore,
        _ => FieldKind::Field { name: raw.name, unit: raw.unit, format: raw.format },
    }
}

/// The outcome of validating `raw`. The checks come in this order: the
/// exclusive flags, the explicit name, the options an exclusive kind may not
/// have, `ignore` with `no_close`, and `prefix` without `flatten`.
pub open spec fn spec_validate<P>(raw: RawFieldAttrs<P>) -> Result<FieldAttrs<P>, FieldAttrError> {
    match spec_kind_choice(raw) {
        Err(e) => Err(e),
        Ok(choice) => {
            if raw.name matches Some(n) && spec_name_error(n@) is Some {
                Err(FieldAttrError::InvalidName(spec_name_error(raw.name->0@)->0))
            } else if choice matches Some(k) && spec_field_option_given(raw) is Some {
                Err(
                    FieldAttrError::Combine {
                        earlier: choice->0,
                        later: spec_field_option_given(raw)->0,
                    },
                )
            } else if raw.no_close && choice == Some(FieldOption::Ignore) {
                Err(FieldAttrError::IgnoreWithNoClose)
            } else if raw.prefix is Some && choice != Some(FieldOption::Flatten) {
                Err(FieldAttrError::PrefixWithoutFlatten)
            } else {
                Ok(FieldAttrs { close: !raw.no_close, kind: spec_kind(raw, choice) })
            }
        },
    }
}

/// No exclusive flag other than the ones allowed is set, and no name, unit
/// or format is given.
pub open spec fn only_flag<P>(raw: RawFieldAttrs<P>, flatten: bool, flatten_entry: bool, timestamp: bool, ignore: bool) -> bool {
    &&& raw.flatten == flatten
    &&& raw.flatten_entry == flatten_entry
    &&& raw.timestamp == timestamp
    &&& raw.ignore == ignore
    &&& raw.name is None
    &&& raw.unit is None
    &&& raw.format is None
}

/// What a field is follows from its flags: a field with exactly one
/// exclusive flag (and nothing that conflicts with it) is accepted as that
/// kind, closed unless `no_close`; a field with no exclusive flag, no
/// prefix and a valid (or no) name is an ordinary field carrying the name,
/// unit and format it was given; and two exclusive flags are always refused.
pub proof fn lemma_field_kind_follows_flags<P>(raw: RawFieldAttrs<P>)
    ensures
        only_flag(raw, false, false, true, false) && raw.prefix is None ==> (spec_validate(raw) matches Ok(a)
            && a.kind is Timestamp && a.close == !raw.no_close),
        only_flag(raw, false, true, false, false) && raw.prefix is None ==> (spec_validate(raw) matches Ok(a)
            && a.kind is FlattenEntry && a.close == !raw.no_close),
        only_flag(raw, false, false, false, true) && raw.prefix is None && !raw.no_close ==> (spec_validate(
            raw,
        ) matches Ok(a) && a.kind is Ignore && a.close),
        only_flag(raw, true, false, false, false) ==> (spec_validate(raw) matches Ok(a)
            && a.kind matches FieldKind::Flatten { prefix } && prefix == raw.prefix && a.close
            == !raw.no_close),
        !raw.flatten && !raw.flatten_entry && !raw.timestamp && !raw.ignore && raw.prefix is None && (
        raw.name matches Some(n) ==> n@.len() > 0 && !n@.contains(' ')) ==> (spec_validate(raw) matches Ok(a)
            && a.kind matches FieldKind::Field { name, unit, format } && name == raw.name && unit
            == raw.unit && format == raw.format && a.close == !raw.no_close),
        (raw.flatten && raw.flatten_entry) || (raw.flatten && raw.timestamp) || (raw.flatten && raw.ignore)
            || (raw.flatten_entry && raw.timestamp) || (raw.flatten_entry && raw.ignore) || (
        raw.timestamp && raw.ignore) ==> spec_validate(raw) is Err,
{
}

/// Takes `option` as the kind when `present`, refusing a second exclusive
/// flag.
fn take_exclusive(so_far: Option<FieldOption>, present: bool, option: FieldOption) -> (r: Result<
    Option<FieldOption>,
    FieldAttrError,
>)
    ensures
        r == kind_step(Ok(so_far), present, option),
{
    match so_far {
        None => if present {
            Ok(Some(option))
        } else {
            Ok(None)
        },
        Some(earlier) => if present {
            Err(FieldAttrError::Combine { earlier, later: option })
        } else {
            Ok(Some(earlier))
        },
    }
}

/// Validates the options given on a metric field.
pub fn validate_field_attrs<P>(raw: RawFieldAttrs<P>) -> (r: Result<FieldAttrs<P>, FieldAttrError>)
    ensures
        r == spec_validate(raw),
{
    let ghost g = raw;
    let choice = match take_exclusive(None, raw.flatten, FieldOption::Flatten) {
        Err(e) => return Err(e),
        Ok(c) => c,
    };
    let choice = match take_exclusive(choice, raw.flatten_entry, FieldOption::FlattenEntry) {
        Err(e) => return Err(e),
        Ok(c) => c,
    };
    let choice = match take_exclusive(choice, raw.timestamp, FieldOption::Timestamp) {
        Err(e) => return Err(e),
        Ok(c) => c,
    };
    let choice = match take_exclusive(choice, raw.ignore, FieldOption::Ignore) {
        Err(e) => return Err(e),
        Ok(c) => c,
    };
    assert(spec_kind_choice(g) == Ok::<Option<FieldOption>, FieldAttrError>(choice));
    if let Some(n) = &raw.name {
        if let Err(msg) = validate_name_inner(n.as_str()) {
            return Err(FieldAttrError::InvalidName(msg));
        }
    }
    if let Some(k) = choice {
        if raw.name.is_some() {
            return Err(FieldAttrError::Combine { earlier: k, later: FieldOption::Name });
        }
        if raw.unit.is_some() {
            return Err(FieldAttrError::Combine { earlier: k, later: FieldOption::Unit });
        }
        if raw.format.is_some() {
            return Err(FieldAttrError::Combine { earlier: k, later: FieldOption::Format });
        }
    }
    let close = !raw.no_close;
    if raw.no_close && choice == Some(FieldOption::Ignore) {
        return Err(FieldAttrError::IgnoreWithNoClose);
    }
    let is_flatten = choice == Some(FieldOption::Flatten);
    if raw.prefix.is_some() && !is_flatten {
        return Err(FieldAttrError::PrefixWithoutFlatten);
    }
    let RawFieldAttrs { flatten: _, flatten_entry: _, no_close: _, timestamp: _, ignore: _, unit, format, name, prefix } = raw;
    let kind = match choice {
        Some(FieldOption::Flatten) => FieldKind::Flatten { prefix },
        Some(FieldOption::FlattenEntry) => FieldKind::FlattenEntry,
        Some(FieldOption::Timestamp) => FieldKind::Timestamp,
        Some(FieldOption::Ignore) => FieldKind::Ignore,
        _ => FieldKind::Field { name, unit, format },
    };
    Ok(FieldAttrs { close, kind })
}

impl FieldAttrError {
    /// The error's message.
    pub open spec fn spec_message(self) -> Seq<char> {
        match self {
            FieldAttrError::Combine { earlier, later } => "Cannot combine "@ + earlier.spec_word()
                + " with "@ + later.spec_word(),
            FieldAttrError::InvalidName(msg) => msg@,
            FieldAttrError::IgnoreWithNoClose => "Cannot combine ignore with no_close"@,
            FieldAttrError::PrefixWithoutFlatten => "prefix can only be used with flatten"@,
        }
    }

    /// The error's message.
    pub fn message(&self) -> (r: String)
        ensures
            r@ == self.spec_message(),
    {
        let mut r = String::new();
        match self {
            FieldAttrError::Combine { earlier, later } => {
                push_str(&mut r, "Cannot combine ");
                push_str(&mut r, earlier.word());
                push_str(&mut r, " with ");
                push_str(&mut r, later.word());
            },
            FieldAttrError::InvalidName(msg) => push_str(&mut r, msg),
            FieldAttrError::IgnoreWithNoClose => push_str(
                &mut r,
                "Cannot combine ignore with no_close",
            ),
            FieldAttrError::PrefixWithoutFlatten => push_str(
                &mut r,
                "prefix can only be used with flatten",
            ),
        }
        r
    }
}

/// How a metrics container is used, as its options select it.
#[derive(Clone, Copy, Debug, PartialEq, Eq, Structural)]
pub enum MetricMode {
    /// An entry that can be appended to a sink (the default).
    RootEntry,
    /// Nested only, consumed by reference or by value.
    Subfield,
    /// Nested only, consumed by value.
    SubfieldOwned,
    /// A value newtype.
    Value,
    /// An enum written as a string value.
    ValueString,
}

/// An option of a metrics container, as named in error messages.
#[derive(Clone, Copy, Debug, PartialEq, Eq, Structural)]
pub enum ContainerOption {
    Value,
    Subfield,
    SubfieldOwned,
}

impl ContainerOption {
    /// The option's name as it is written in the attribute.
    pub open spec fn spec_word(self) -> Seq<char> {
        match self {
            ContainerOption::Value => "value"@,
            ContainerOption::Subfield => "subfield"@,
            ContainerOption::SubfieldOwned => "subfield_owned"@,
        }
    }

    /// The option's name as it is written in the attribute.
    pub fn word(self) -> (r: &'static str)
        ensures
            r@ == self.spec_word(),
    {
        match self {
            ContainerOption::Value => "value",
            ContainerOption::Subfield => "subfield",
            ContainerOption::SubfieldOwned => "subfield_owned",
        }
    }
}

/// Why the options of a metrics container are refused.
#[derive(Clone, Copy, Debug, PartialEq, Eq, Structural)]
pub enum ContainerAttrError {
    /// Two mode options that exclude each other; `earlier` was taken first.
    Combine { earlier: ContainerOption, later: ContainerOption },
    /// `value(string)` together with dimension sets.
    ValueStringWithDimensionSets,
}

impl ContainerAttrError {
    /// The error's message.
    pub open spec fn spec_message(self) -> Seq<char> {
        match self {
            ContainerAttrError::Combine { earlier, later } => "Cannot combine "@
                + earlier.spec_word() + " with "@ + later.spec_word(),
            ContainerAttrError::ValueStringWithDimensionSets =>
                "value does not make sense with dimension-sets"@,
        }
    }

    /// The error's message.
    pub fn message(&self) -> (r: String)
        ensures
            r@ == self.spec_message(),
    {
        let mut r = String::new();
        match self {
            ContainerAttrError::Combine { earlier, later } => {
                push_str(&mut r, "Cannot combine ");
                push_str(&mut r, earlier.word());
                push_str(&mut r, " with ");
                push_str(&mut r, later.word());
            },
            ContainerAttrError::ValueStringWithDimensionSets => push_str(
                &mut r,
                "value does not make sense with dimension-sets",
            ),
        }
        r
    }
}

/// The mode selected by the `value` option alone: `value` is `None` when the
/// option is absent, else whether it was written `value(string)`.
pub open spec fn spec_value_mode(value: Option<bool>) -> Option<(MetricMode, ContainerOption)> {
    match value {
        Some(true) => Some((MetricMode::ValueString, ContainerOption::Value)),
        Some(false) => Some((MetricMode::Value, ContainerOption::Value)),
        None => None,
    }
}

/// The mode of a container with the given options, or why they are
/// refused. The mode options are taken in the order `value`, `subfield`,
/// `subfield_owned`, and at most one may be given; without any the
/// container is a root entry. `value(string)` excludes dimension sets.
pub open spec fn spec_container_mode(
    value: Option<bool>,
    subfield: bool,
    subfield_owned: bool,
    has_dimension_sets: bool,
) -> Result<MetricMode, ContainerAttrError> {
    let c0 = spec_value_mode(value);
    let c1 = if subfield {
        Some((MetricMode::Subfield, ContainerOption::Subfield))
    } else {
        c0
    };
    let c2 = if subfield_owned {
        Some((MetricMode::SubfieldOwned, ContainerOption::SubfieldOwned))
    } else {
        c1
    };
    let mode = match c2 {
        Some((m, _)) => m,
        None => MetricMode::RootEntry,
    };
    if subfield && c0 is Some {
        Err(ContainerAttrError::Combine { earlier: (c0->0).1, later: ContainerOption::Subfield })
    } else if subfield_owned && c1 is Some {
        Err(
            ContainerAttrError::Combine { earlier: (c1->0).1, later: ContainerOption::SubfieldOwned },
        )
    } else if mode == MetricMode::ValueString && has_dimension_sets {
        Err(ContainerAttrError::ValueStringWithDimensionSets)
    } else {
        Ok(mode)
    }
}

/// Decides the mode of a metrics container from its options: `value` is
/// `None` when the `value` option is absent, else whether it was written
/// `value(string)`.
pub fn container_mode(
    value: Option<bool>,
    subfield: bool,
    subfield_owned: bool,
    has_dimension_sets: bool,
) -> (r: Result<MetricMode, ContainerAttrError>)
    ensures
        r == spec_container_mode(value, subfield, subfield_owned, has_dimension_sets),
{
    let mut out: Option<(MetricMode, ContainerOption)> = match value {
        Some(true) => Some((MetricMode::ValueString, ContainerOption::Value)),
        Some(false) => Some((MetricMode::Value, ContainerOption::Value)),
        None => None,
    };
    if subfield {
        if let Some((_, other)) = out {
            return Err(ContainerAttrError::Combine { earlier: other, later: ContainerOption::Subfield });
        }
        out = Some((MetricMode::Subfield, ContainerOption::Subfield));
    }
    if subfield_owned {
        if let Some((_, other)) = out {
            return Err(
                ContainerAttrError::Combine { earlier: other, later: ContainerOption::SubfieldOwned },
            );
        }
        out = Some((MetricMode::SubfieldOwned, ContainerOption::SubfieldOwned));
    }
    let mode = match out {
        Some((m, _)) => m,
        None => MetricMode::RootEntry,
    };
    if mode == MetricMode::ValueString && has_dimension_sets {
        return Err(ContainerAttrError::ValueStringWithDimensionSets);
    }
    Ok(mode)
}

/// What the aggregation options of a field say: its name, whether it is a
/// key, and whether it names a strategy.
pub struct AggregateFieldAttrs {
    pub name: String,
    pub is_key: bool,
    pub has_strategy: bool,
}

/// A field that is not a key must name an aggregation strategy.
pub open spec fn lacks_strategy(f: AggregateFieldAttrs) -> bool {
    !f.is_key && !f.has_strategy
}

/// The error for a field named `name` that lacks a strategy.
pub open spec fn spec_missing_strategy_message(name: Seq<char>) -> Seq<char> {
    "field '"@ + name + "' requires #[aggregate(strategy = ...)] attribute"@
}

/// The error for a field named `name` that lacks a strategy.
pub fn missing_strategy_message(name: &str) -> (r: String)
    ensures
        r@ == spec_missing_strategy_message(name@),
{
    let mut r = String::new();
    push_str(&mut r, "field '");
    push_str(&mut r, name);
    push_str(&mut r, "' requires #[aggregate(strategy = ...)] attribute");
    r
}

/// Checks the fields of an aggregated struct, in order: the first field
/// that is neither a key nor given a strategy is refused, with its error.
pub fn check_aggregate_fields(fields: &Vec<AggregateFieldAttrs>) -> (r: Result<(), String>)
    ensures
        r is Ok <==> forall|i: int| 0 <= i < fields@.len() ==> !lacks_strategy(#[trigger] fields@[i]),
        r matches Err(m) ==> exists|i: int|
            0 <= i < fields@.len() && lacks_strategy(#[trigger] fields@[i]) && (forall|j: int|
                0 <= j < i ==> !lacks_strategy(#[trigger] fields@[j])) && m@
                == spec_missing_strategy_message(fields@[i].name@),
{
    let mut i: usize = 0;
    while i < fields.len()
        invariant
            i <= fields@.len(),
            forall|j: int| 0 <= j < i ==> !lacks_strategy(#[trigger] fields@[j]),
        decreases fields.len() - i,
    {
        let f = &fields[i];
        if !f.is_key && !f.has_strategy {
            let m = missing_strategy_message(f.name.as_str());
            assert(lacks_strategy(fields@[i as int]));
            return Err(m);
        }
        i = i + 1;
    }
    Ok(())
}

} // verus!
