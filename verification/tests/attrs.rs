use metrique::attrs::{
    check_aggregate_fields, missing_strategy_message, AggregateFieldAttrs, container_mode, validate_field_attrs, ContainerAttrError, ContainerOption, FieldAttrError,
    FieldKind, FieldOption, MetricMode, RawFieldAttrs,
};

fn raw() -> RawFieldAttrs<&'static str> {
    RawFieldAttrs {
        flatten: false,
        flatten_entry: false,
        no_close: false,
        timestamp: false,
        ignore: false,
        unit: None,
        format: None,
        name: None,
        prefix: None,
    }
}

#[test]
fn plain_field_keeps_name_unit_and_format() {
    let mut r = raw();
    r.name = Some("Latency".to_string());
    r.unit = Some("Millisecond");
    let attrs = validate_field_attrs(r).unwrap();
    assert!(attrs.close);
    match attrs.kind {
        FieldKind::Field { name, unit, format } => {
            assert_eq!(name.as_deref(), Some("Latency"));
            assert_eq!(unit, Some("Millisecond"));
            assert_eq!(format, None);
        }
        _ => panic!(),
    }
}

#[test]
fn two_exclusive_flags_are_refused_naming_both() {
    let mut r = raw();
    r.flatten = true;
    r.timestamp = true;
    r.ignore = true;
    let err = validate_field_attrs(r).err().unwrap();
    assert_eq!(
        err,
        FieldAttrError::Combine { earlier: FieldOption::Flatten, later: FieldOption::Timestamp }
    );
    assert_eq!(err.message(), "Cannot combine flatten with timestamp");
}

#[test]
fn exclusive_kind_refuses_name_unit_format() {
    let mut r = raw();
    r.timestamp = true;
    r.unit = Some("Second");
    let err = validate_field_attrs(r).err().unwrap();
    assert_eq!(err.message(), "Cannot combine timestamp with unit");
}

#[test]
fn invalid_name_is_reported_before_combinations() {
    let mut r = raw();
    r.ignore = true;
    r.name = Some("has space".to_string());
    let err = validate_field_attrs(r).err().unwrap();
    assert_eq!(err, FieldAttrError::InvalidName("invalid name: name must not contain spaces"));
    let mut r = raw();
    r.name = Some(String::new());
    assert_eq!(
        validate_field_attrs(r).err().unwrap().message(),
        "invalid name: name field must not be empty"
    );
}

#[test]
fn ignore_with_no_close_is_refused() {
    let mut r = raw();
    r.ignore = true;
    r.no_close = true;
    let err = validate_field_attrs(r).err().unwrap();
    assert_eq!(err, FieldAttrError::IgnoreWithNoClose);
    assert_eq!(err.message(), "Cannot combine ignore with no_close");
}

#[test]
fn prefix_needs_flatten() {
    let mut r = raw();
    r.prefix = Some("sub_".to_string());
    let err = validate_field_attrs(r).err().unwrap();
    assert_eq!(err.message(), "prefix can only be used with flatten");

    let mut r = raw();
    r.flatten = true;
    r.no_close = true;
    r.prefix = Some("sub_".to_string());
    let attrs = validate_field_attrs(r).unwrap();
    assert!(!attrs.close);
    match attrs.kind {
        FieldKind::Flatten { prefix } => assert_eq!(prefix.as_deref(), Some("sub_")),
        _ => panic!(),
    }
}

#[test]
fn container_without_mode_options_is_a_root_entry() {
    assert_eq!(container_mode(None, false, false, true), Ok(MetricMode::RootEntry));
    assert_eq!(container_mode(Some(false), false, false, true), Ok(MetricMode::Value));
    assert_eq!(container_mode(Some(true), false, false, false), Ok(MetricMode::ValueString));
    assert_eq!(container_mode(None, true, false, false), Ok(MetricMode::Subfield));
    assert_eq!(container_mode(None, false, true, false), Ok(MetricMode::SubfieldOwned));
}

#[test]
fn container_mode_options_exclude_each_other() {
    let err = container_mode(Some(false), true, false, false).err().unwrap();
    assert_eq!(
        err,
        ContainerAttrError::Combine {
            earlier: ContainerOption::Value,
            later: ContainerOption::Subfield
        }
    );
    assert_eq!(err.message(), "Cannot combine value with subfield");
    let err = container_mode(None, true, true, false).err().unwrap();
    assert_eq!(err.message(), "Cannot combine subfield with subfield_owned");
}

#[test]
fn string_value_excludes_dimension_sets() {
    let err = container_mode(Some(true), false, false, true).err().unwrap();
    assert_eq!(err, ContainerAttrError::ValueStringWithDimensionSets);
    assert_eq!(err.message(), "value does not make sense with dimension-sets");
}

fn agg(name: &str, is_key: bool, has_strategy: bool) -> AggregateFieldAttrs {
    AggregateFieldAttrs { name: name.to_string(), is_key, has_strategy }
}

#[test]
fn aggregate_fields_need_a_strategy_unless_keys() {
    assert_eq!(check_aggregate_fields(&vec![]), Ok(()));
    assert_eq!(
        check_aggregate_fields(&vec![agg("op", true, false), agg("latency", false, true)]),
        Ok(())
    );
    assert_eq!(
        check_aggregate_fields(&vec![
            agg("op", true, false),
            agg("count", false, false),
            agg("size", false, false),
        ]),
        Err("field 'count' requires #[aggregate(strategy = ...)] attribute".to_string())
    );
    assert_eq!(
        missing_strategy_message("x"),
        "field 'x' requires #[aggregate(strategy = ...)] attribute"
    );
}
