use recap::{
    bind_from_structured, from_captures, BindError, FieldKind, FieldSpec, Pattern, RecordShape,
    ScalarKind, Structured, UnionShape, Value, VariantSpec,
};

fn level_union() -> UnionShape {
    UnionShape {
        variants: vec![
            VariantSpec {
                name: "Code".to_string(),
                pattern: Pattern::new(r"^(?P<code>\d+)$").unwrap(),
                shape: RecordShape {
                    fields: vec![FieldSpec::plain("code", FieldKind::Scalar(ScalarKind::U16))],
                },
            },
            VariantSpec {
                name: "Word".to_string(),
                pattern: Pattern::new(r"^\w+$").unwrap(),
                shape: RecordShape { fields: vec![] },
            },
        ],
    }
}

fn message_shape() -> RecordShape {
    RecordShape {
        fields: vec![
            FieldSpec::plain("level", FieldKind::Union(level_union())),
            FieldSpec::plain("text", FieldKind::Scalar(ScalarKind::Text)),
        ],
    }
}

#[test]
fn a_union_typed_field_selects_by_its_variants() {
    let pattern = Pattern::new(r"(?P<level>\S+) (?P<text>.+)").unwrap();
    assert_eq!(
        from_captures(&pattern, "503 upstream gone", &message_shape()).unwrap(),
        Value::Record(vec![
            (
                "level".to_string(),
                Value::Variant(
                    "Code".to_string(),
                    Box::new(Value::Record(vec![("code".to_string(), Value::Int(503))])),
                )
            ),
            ("text".to_string(), Value::Text("upstream gone".to_string())),
        ])
    );
    assert_eq!(
        from_captures(&pattern, "warn upstream gone", &message_shape()).unwrap(),
        Value::Record(vec![
            (
                "level".to_string(),
                Value::Variant("Word".to_string(), Box::new(Value::Record(vec![]))),
            ),
            ("text".to_string(), Value::Text("upstream gone".to_string())),
        ])
    );
}

#[test]
fn a_union_typed_field_binds_from_structured_text() {
    let shape = RecordShape {
        fields: vec![FieldSpec::plain("level", FieldKind::Union(level_union()))],
    };
    let doc = Structured::Object(vec![(
        "level".to_string(),
        Structured::Text("42".to_string()),
    )]);
    assert_eq!(
        bind_from_structured(&shape, &doc).unwrap(),
        Value::Record(vec![(
            "level".to_string(),
            Value::Variant(
                "Code".to_string(),
                Box::new(Value::Record(vec![("code".to_string(), Value::Int(42))])),
            )
        )])
    );
}

#[test]
fn a_missing_sequence_field_uses_its_default_or_fails() {
    let pattern = Pattern::new(r"(?P<name>\w+)(=(?P<ports>[\d,]+))?").unwrap();
    let defaulted = RecordShape {
        fields: vec![
            FieldSpec::plain("name", FieldKind::Scalar(ScalarKind::Text)),
            FieldSpec {
                name: "ports".to_string(),
                kind: FieldKind::Sequence(ScalarKind::U16),
                source: None,
                default: Some(Value::List(vec![Value::Int(80)])),
                delimiter: None,
            },
        ],
    };
    assert_eq!(
        from_captures(&pattern, "web", &defaulted).unwrap(),
        Value::Record(vec![
            ("name".to_string(), Value::Text("web".to_string())),
            ("ports".to_string(), Value::List(vec![Value::Int(80)])),
        ])
    );
    let required = RecordShape {
        fields: vec![
            FieldSpec::plain("name", FieldKind::Scalar(ScalarKind::Text)),
            FieldSpec::plain("ports", FieldKind::Sequence(ScalarKind::U16)),
        ],
    };
    assert_eq!(
        from_captures(&pattern, "web", &required).unwrap_err(),
        BindError::MissingField("ports".to_string())
    );
    assert_eq!(
        from_captures(&pattern, "web=80,443", &required).unwrap(),
        Value::Record(vec![
            ("name".to_string(), Value::Text("web".to_string())),
            ("ports".to_string(), Value::List(vec![Value::Int(80), Value::Int(443)])),
        ])
    );
}

#[test]
fn coercion_failures_describe_the_field_and_raw_text() {
    let pattern = Pattern::new(r"(?P<count>\S+)").unwrap();
    let shape = RecordShape {
        fields: vec![FieldSpec::plain("count", FieldKind::Scalar(ScalarKind::U32))],
    };
    let err = from_captures(&pattern, "many", &shape).unwrap_err();
    assert_eq!(err.message(), "invalid value 'many' provided by count");
}

#[test]
fn an_optional_sequence_field_is_absent_without_its_capture() {
    let pattern = Pattern::new(r"(?P<name>\w+)(=(?P<ports>[\d,]+))?").unwrap();
    let shape = RecordShape {
        fields: vec![
            FieldSpec::plain("name", FieldKind::Scalar(ScalarKind::Text)),
            FieldSpec::plain("ports", FieldKind::OptionalSequence(ScalarKind::U16)),
        ],
    };
    assert_eq!(
        from_captures(&pattern, "web", &shape).unwrap(),
        Value::Record(vec![
            ("name".to_string(), Value::Text("web".to_string())),
            ("ports".to_string(), Value::Absent),
        ])
    );
}
