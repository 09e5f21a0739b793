use recap::{coerce_scalar, from_captures, FieldKind, FieldSpec, Pattern, RecordShape, ScalarKind, Value};

#[test]
fn coerces_booleans_by_their_exact_grammar() {
    assert_eq!(coerce_scalar(ScalarKind::Bool, "true"), Some(Value::Bool(true)));
    assert_eq!(coerce_scalar(ScalarKind::Bool, "false"), Some(Value::Bool(false)));
    assert_eq!(coerce_scalar(ScalarKind::Bool, "TRUE"), None);
    assert_eq!(coerce_scalar(ScalarKind::Bool, " true"), None);
    assert_eq!(coerce_scalar(ScalarKind::Bool, ""), None);
}

#[test]
fn coerces_integers_with_signs_and_ranges() {
    assert_eq!(coerce_scalar(ScalarKind::U8, "255"), Some(Value::Int(255)));
    assert_eq!(coerce_scalar(ScalarKind::U8, "256"), None);
    assert_eq!(coerce_scalar(ScalarKind::U32, "+7"), Some(Value::Int(7)));
    assert_eq!(coerce_scalar(ScalarKind::U32, "-0"), None);
    assert_eq!(coerce_scalar(ScalarKind::I32, "-5"), Some(Value::Int(-5)));
    assert_eq!(coerce_scalar(ScalarKind::I8, "-128"), Some(Value::Int(-128)));
    assert_eq!(coerce_scalar(ScalarKind::I8, "-129"), None);
    assert_eq!(
        coerce_scalar(ScalarKind::U64, "18446744073709551615"),
        Some(Value::Int(18446744073709551615))
    );
    assert_eq!(coerce_scalar(ScalarKind::U64, "18446744073709551616"), None);
    assert_eq!(
        coerce_scalar(ScalarKind::I64, "-9223372036854775808"),
        Some(Value::Int(-9223372036854775808))
    );
    assert_eq!(coerce_scalar(ScalarKind::I64, "9223372036854775808"), None);
    assert_eq!(coerce_scalar(ScalarKind::U32, ""), None);
    assert_eq!(coerce_scalar(ScalarKind::U32, "+"), None);
    assert_eq!(coerce_scalar(ScalarKind::U32, "12a"), None);
}

#[test]
fn coerces_characters_and_text() {
    assert_eq!(coerce_scalar(ScalarKind::Char, "x"), Some(Value::Char('x')));
    assert_eq!(coerce_scalar(ScalarKind::Char, "xy"), None);
    assert_eq!(coerce_scalar(ScalarKind::Char, ""), None);
    assert_eq!(coerce_scalar(ScalarKind::Text, ""), Some(Value::Text("".to_string())));
    assert_eq!(
        coerce_scalar(ScalarKind::Text, " padded "),
        Some(Value::Text(" padded ".to_string()))
    );
}

#[test]
fn renders_and_rebinds_a_scalar_record() {
    let name = "socket";
    let count: u32 = 1337;
    let enabled = true;
    let line = format!("{} {} {}", name, count, enabled);
    let pattern = Pattern::new(r"(?P<name>\S+)\s(?P<count>\d+)\s(?P<enabled>\S+)").unwrap();
    let shape = RecordShape {
        fields: vec![
            FieldSpec::plain("name", FieldKind::Scalar(ScalarKind::Text)),
            FieldSpec::plain("count", FieldKind::Scalar(ScalarKind::U32)),
            FieldSpec::plain("enabled", FieldKind::Scalar(ScalarKind::Bool)),
        ],
    };
    assert_eq!(
        from_captures(&pattern, &line, &shape).unwrap(),
        Value::Record(vec![
            ("name".to_string(), Value::Text(name.to_string())),
            ("count".to_string(), Value::Int(count as i128)),
            ("enabled".to_string(), Value::Bool(enabled)),
        ])
    );
}

#[test]
fn optional_absent_wins_over_empty_grammar() {
    let pattern = Pattern::new(r"(?P<a>\d+)(:(?P<b>\w*))?").unwrap();
    let shape = RecordShape {
        fields: vec![
            FieldSpec::plain("a", FieldKind::Scalar(ScalarKind::U32)),
            FieldSpec::plain("b", FieldKind::Optional(ScalarKind::Text)),
        ],
    };
    assert_eq!(
        from_captures(&pattern, "12", &shape).unwrap(),
        Value::Record(vec![
            ("a".to_string(), Value::Int(12)),
            ("b".to_string(), Value::Absent),
        ])
    );
    assert_eq!(
        from_captures(&pattern, "12:", &shape).unwrap(),
        Value::Record(vec![
            ("a".to_string(), Value::Int(12)),
            ("b".to_string(), Value::Text("".to_string())),
        ])
    );
}
