use recap::{
    bind_union_from_string, BindError, FieldKind, FieldSpec, Pattern, RecordShape, ScalarKind,
    TargetKind, UnionShape, Value, VariantSpec,
};

fn number_then_any_union(number_kind: ScalarKind) -> UnionShape {
    UnionShape {
        variants: vec![
            VariantSpec {
                name: "Number".to_string(),
                pattern: Pattern::new(r"^(?P<a>\d+)$").unwrap(),
                shape: RecordShape {
                    fields: vec![FieldSpec::plain("a", FieldKind::Scalar(number_kind))],
                },
            },
            VariantSpec {
                name: "Anything".to_string(),
                pattern: Pattern::new(r".+").unwrap(),
                shape: RecordShape { fields: vec![] },
            },
        ],
    }
}

#[test]
fn the_first_matching_variant_commits() {
    let union_shape = number_then_any_union(ScalarKind::U32);
    assert_eq!(
        bind_union_from_string(&union_shape, "123").unwrap(),
        Value::Variant(
            "Number".to_string(),
            Box::new(Value::Record(vec![("a".to_string(), Value::Int(123))])),
        )
    );
    assert_eq!(
        bind_union_from_string(&union_shape, "not a number").unwrap(),
        Value::Variant("Anything".to_string(), Box::new(Value::Record(vec![]))),
    );
}

#[test]
fn a_committed_variant_does_not_backtrack() {
    let union_shape = number_then_any_union(ScalarKind::U8);
    assert_eq!(
        bind_union_from_string(&union_shape, "999").unwrap_err(),
        BindError::CoercionFailure {
            field: "a".to_string(),
            raw: "999".to_string(),
            target: TargetKind::Scalar(ScalarKind::U8),
        }
    );
}

#[test]
fn no_variant_matching_is_its_own_failure() {
    let union_shape = UnionShape {
        variants: vec![VariantSpec {
            name: "Exact".to_string(),
            pattern: Pattern::new(r"^foo$").unwrap(),
            shape: RecordShape { fields: vec![] },
        }],
    };
    let err = bind_union_from_string(&union_shape, "bar").unwrap_err();
    assert_eq!(err, BindError::NoVariantMatched("bar".to_string()));
    assert_eq!(err.message(), "no variant pattern matched 'bar'");
}

#[test]
fn a_unit_variant_needs_only_a_pattern_match() {
    let union_shape = UnionShape {
        variants: vec![VariantSpec {
            name: "Blank".to_string(),
            pattern: Pattern::new(r"^\s*$").unwrap(),
            shape: RecordShape { fields: vec![] },
        }],
    };
    assert_eq!(
        bind_union_from_string(&union_shape, "   ").unwrap(),
        Value::Variant("Blank".to_string(), Box::new(Value::Record(vec![]))),
    );
}
