use recap::{
    expand_sequence, from_captures, split_on_comma, BindError, FieldKind, FieldSpec, Pattern,
    RecordShape, ScalarKind, TargetKind, Value,
};

fn texts(parts: &[&str]) -> Value {
    Value::List(parts.iter().map(|p| Value::Text(p.to_string())).collect())
}

#[test]
fn expands_the_empty_string_to_an_empty_sequence() {
    let field = "items".to_string();
    assert_eq!(expand_sequence(ScalarKind::Text, &field, "", None), Ok(Value::List(vec![])));
}

#[test]
fn expands_comma_separated_parts_in_order() {
    let field = "items".to_string();
    assert_eq!(
        expand_sequence(ScalarKind::Text, &field, "a,b,c", None),
        Ok(texts(&["a", "b", "c"]))
    );
    assert_eq!(
        expand_sequence(ScalarKind::Text, &field, "a,,c", None),
        Ok(texts(&["a", "", "c"]))
    );
    assert_eq!(split_on_comma("a,b,c"), vec!["a", "b", "c"]);
    assert_eq!(split_on_comma(""), vec![""]);
}

#[test]
fn a_custom_delimiter_overrides_the_comma_default() {
    let field = "items".to_string();
    let delim = Pattern::new(r";\s*").unwrap();
    assert_eq!(
        expand_sequence(ScalarKind::Text, &field, "a; b;c", Some(&delim)),
        Ok(texts(&["a", "b", "c"]))
    );
    assert_eq!(
        expand_sequence(ScalarKind::Text, &field, "a,b;c", Some(&delim)),
        Ok(texts(&["a,b", "c"]))
    );
}

#[test]
fn sequence_elements_go_through_the_scalar_coercer() {
    let field = "nums".to_string();
    assert_eq!(
        expand_sequence(ScalarKind::U32, &field, "1,2,3", None),
        Ok(Value::List(vec![Value::Int(1), Value::Int(2), Value::Int(3)]))
    );
    assert_eq!(
        expand_sequence(ScalarKind::U32, &field, "1,x,3", None),
        Err(BindError::CoercionFailure {
            field: "nums".to_string(),
            raw: "x".to_string(),
            target: TargetKind::Scalar(ScalarKind::U32),
        })
    );
}

#[test]
fn binds_a_sequence_field_with_a_delimiter_override() {
    let pattern = Pattern::new(r"(?P<name>\w+)=(?P<ports>[\d ]*)").unwrap();
    let shape = RecordShape {
        fields: vec![
            FieldSpec::plain("name", FieldKind::Scalar(ScalarKind::Text)),
            FieldSpec {
                name: "ports".to_string(),
                kind: FieldKind::Sequence(ScalarKind::U16),
                source: None,
                default: None,
                delimiter: Some(Pattern::new(r" ").unwrap()),
            },
        ],
    };
    assert_eq!(
        from_captures(&pattern, "web=80 443 8080", &shape).unwrap(),
        Value::Record(vec![
            ("name".to_string(), Value::Text("web".to_string())),
            (
                "ports".to_string(),
                Value::List(vec![Value::Int(80), Value::Int(443), Value::Int(8080)])
            ),
        ])
    );
    assert_eq!(
        from_captures(&pattern, "web=", &shape).unwrap(),
        Value::Record(vec![
            ("name".to_string(), Value::Text("web".to_string())),
            ("ports".to_string(), Value::List(vec![])),
        ])
    );
}
