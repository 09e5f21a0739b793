use recap::{
    bind_from_structured, BindError, FieldKind, FieldSpec, NestedSpec, Pattern, RecordShape,
    ScalarKind, Structured, Value,
};

fn inner_pattern() -> Pattern {
    Pattern::new(r"((?P<FirstAttribute>\w+):)?(?P<second_rename>\d+):(?P<ThirdAttribute>\w+)")
        .unwrap()
}

fn inner_shape() -> RecordShape {
    RecordShape {
        fields: vec![
            FieldSpec {
                name: "first_attribute".to_string(),
                kind: FieldKind::Scalar(ScalarKind::Text),
                source: Some("FirstAttribute".to_string()),
                default: Some(Value::Text("Some default".to_string())),
                delimiter: None,
            },
            FieldSpec {
                name: "second_attribute".to_string(),
                kind: FieldKind::Scalar(ScalarKind::U32),
                source: Some("second_rename".to_string()),
                default: None,
                delimiter: None,
            },
            FieldSpec {
                name: "third_attribute".to_string(),
                kind: FieldKind::Scalar(ScalarKind::Text),
                source: Some("ThirdAttribute".to_string()),
                default: None,
                delimiter: None,
            },
        ],
    }
}

fn outer_shape() -> RecordShape {
    RecordShape {
        fields: vec![
            FieldSpec::plain(
                "first",
                FieldKind::Nested(NestedSpec { pattern: inner_pattern(), shape: inner_shape() }),
            ),
            FieldSpec::plain(
                "second",
                FieldKind::OptionalNested(NestedSpec {
                    pattern: inner_pattern(),
                    shape: inner_shape(),
                }),
            ),
            FieldSpec::plain(
                "third",
                FieldKind::OptionalNested(NestedSpec {
                    pattern: inner_pattern(),
                    shape: inner_shape(),
                }),
            ),
        ],
    }
}

fn inner_value(first: &str, second: i128, third: &str) -> Value {
    Value::Record(vec![
        ("first_attribute".to_string(), Value::Text(first.to_string())),
        ("second_attribute".to_string(), Value::Int(second)),
        ("third_attribute".to_string(), Value::Text(third.to_string())),
    ])
}

#[test]
fn custom_deserialize_works_with_other_formats() {
    let doc = Structured::Object(vec![
        (
            "first".to_string(),
            Structured::Object(vec![
                ("FirstAttribute".to_string(), Structured::Text("first_first".to_string())),
                ("second_rename".to_string(), Structured::Int(123)),
                ("ThirdAttribute".to_string(), Structured::Text("first_third".to_string())),
            ]),
        ),
        (
            "third".to_string(),
            Structured::Object(vec![
                ("second_rename".to_string(), Structured::Int(456)),
                ("ThirdAttribute".to_string(), Structured::Text("third_third".to_string())),
            ]),
        ),
    ]);
    assert_eq!(
        bind_from_structured(&outer_shape(), &doc).unwrap(),
        Value::Record(vec![
            ("first".to_string(), inner_value("first_first", 123, "first_third")),
            ("second".to_string(), Value::Absent),
            ("third".to_string(), inner_value("Some default", 456, "third_third")),
        ])
    );
}

#[test]
fn structured_missing_required_field_is_a_structural_mismatch() {
    let shape = RecordShape {
        fields: vec![FieldSpec::plain("needed", FieldKind::Scalar(ScalarKind::Text))],
    };
    let doc = Structured::Object(vec![(
        "unrelated".to_string(),
        Structured::Text("x".to_string()),
    )]);
    let err = bind_from_structured(&shape, &doc).unwrap_err();
    assert_eq!(err, BindError::StructuralMismatch("needed".to_string()));
    assert_eq!(err.message(), "structured input has no value for field needed");
}

#[test]
fn structured_nested_text_field_is_re_matched() {
    let shape = RecordShape {
        fields: vec![FieldSpec::plain(
            "entry",
            FieldKind::Nested(NestedSpec { pattern: inner_pattern(), shape: inner_shape() }),
        )],
    };
    let doc = Structured::Object(vec![(
        "entry".to_string(),
        Structured::Text("a:7:b".to_string()),
    )]);
    assert_eq!(
        bind_from_structured(&shape, &doc).unwrap(),
        Value::Record(vec![("entry".to_string(), inner_value("a", 7, "b"))])
    );
}

#[test]
fn structured_scalars_and_lists_coerce_directly() {
    let shape = RecordShape {
        fields: vec![
            FieldSpec::plain("flag", FieldKind::Scalar(ScalarKind::Bool)),
            FieldSpec::plain("count", FieldKind::Scalar(ScalarKind::U8)),
            FieldSpec::plain("items", FieldKind::Sequence(ScalarKind::U32)),
        ],
    };
    let doc = Structured::Object(vec![
        ("flag".to_string(), Structured::Bool(true)),
        ("count".to_string(), Structured::Int(200)),
        (
            "items".to_string(),
            Structured::List(vec![Structured::Int(1), Structured::Text("2".to_string())]),
        ),
    ]);
    assert_eq!(
        bind_from_structured(&shape, &doc).unwrap(),
        Value::Record(vec![
            ("flag".to_string(), Value::Bool(true)),
            ("count".to_string(), Value::Int(200)),
            ("items".to_string(), Value::List(vec![Value::Int(1), Value::Int(2)])),
        ])
    );
}

#[test]
fn structured_out_of_range_integer_is_rejected() {
    let shape = RecordShape {
        fields: vec![FieldSpec::plain("count", FieldKind::Scalar(ScalarKind::U8))],
    };
    let doc = Structured::Object(vec![("count".to_string(), Structured::Int(300))]);
    assert_eq!(
        bind_from_structured(&shape, &doc).unwrap_err(),
        BindError::StructuralMismatch("count".to_string())
    );
}
