use recap::{
    extract, from_captures, BindError, FieldKind, FieldSpec, Pattern, RecordShape, ScalarKind,
    Value,
};

fn text_field(name: &str) -> FieldSpec {
    FieldSpec::plain(name, FieldKind::Scalar(ScalarKind::Text))
}

fn log_entry_shape() -> RecordShape {
    RecordShape { fields: vec![text_field("foo"), text_field("bar"), text_field("baz")] }
}

fn three_part_pattern() -> Pattern {
    Pattern::new(
        r#"(?x)
                    (?P<foo>\S+)
                    \s+
                    (?P<bar>\S+)
                    \s+
                    (?P<baz>\S+)
                "#,
    )
    .unwrap()
}

#[test]
fn deserializes_matching_captures_optional() {
    let pattern = Pattern::new(
        r#"(?x)
                    (?P<foo>\S+)
                    \s+
                    (?P<bar>\S+)
                    \s+
                    (?P<baz>\S+)?
                "#,
    )
    .unwrap();
    let shape = RecordShape {
        fields: vec![
            text_field("foo"),
            text_field("bar"),
            FieldSpec::plain("baz", FieldKind::Optional(ScalarKind::Text)),
        ],
    };
    assert_eq!(
        from_captures(&pattern, "one two ", &shape).unwrap(),
        Value::Record(vec![
            ("foo".to_string(), Value::Text("one".to_string())),
            ("bar".to_string(), Value::Text("two".to_string())),
            ("baz".to_string(), Value::Absent),
        ])
    );
}

#[test]
fn deserializes_matching_captures() {
    assert_eq!(
        from_captures(&three_part_pattern(), "one two three", &log_entry_shape()).unwrap(),
        Value::Record(vec![
            ("foo".to_string(), Value::Text("one".to_string())),
            ("bar".to_string(), Value::Text("two".to_string())),
            ("baz".to_string(), Value::Text("three".to_string())),
        ])
    );
}

#[test]
fn deserializes_zero_copy() {
    let input = "one two three";
    let caps = extract(&three_part_pattern(), input).unwrap();
    let foo: &String = caps.get(&"foo".to_string()).unwrap();
    let bar: &String = caps.get(&"bar".to_string()).unwrap();
    let baz: &String = caps.get(&"baz".to_string()).unwrap();
    assert_eq!(foo.as_str(), "one");
    assert_eq!(bar.as_str(), "two");
    assert_eq!(baz.as_str(), "three");
}

#[test]
fn fails_without_captures() {
    let pattern = Pattern::new("test").unwrap();
    let result = from_captures(&pattern, "one two three", &log_entry_shape());
    match result {
        Ok(_) => panic!("should have failed"),
        Err(err) => assert_eq!(
            err.message(),
            "No captures resolved in string 'one two three'"
        ),
    }
}

#[test]
fn fails_with_unmatched_captures() {
    let pattern = Pattern::new(".+").unwrap();
    let result = from_captures(&pattern, "one two three", &log_entry_shape());
    match result {
        Ok(_) => panic!("should have failed"),
        Err(err) => {
            assert_eq!(err, BindError::MissingField("foo".to_string()));
            assert_eq!(err.message(), "missing value for field foo");
        },
    }
}

#[test]
fn default_deserialize_works() {
    let pattern = Pattern::new(r"(?P<first>\w+):(?P<second>\d+)").unwrap();
    let shape = RecordShape {
        fields: vec![
            text_field("first"),
            FieldSpec::plain("second", FieldKind::Scalar(ScalarKind::U32)),
        ],
    };
    assert_eq!(
        from_captures(&pattern, "hello:1337", &shape).unwrap(),
        Value::Record(vec![
            ("first".to_string(), Value::Text("hello".to_string())),
            ("second".to_string(), Value::Int(1337)),
        ])
    );
}

#[test]
fn binds_two_whitespace_separated_words() {
    let pattern = Pattern::new(r"(?P<foo>\S+)\s(?P<bar>\S+)").unwrap();
    let shape = RecordShape { fields: vec![text_field("foo"), text_field("bar")] };
    assert_eq!(
        from_captures(&pattern, "hello there", &shape).unwrap(),
        Value::Record(vec![
            ("foo".to_string(), Value::Text("hello".to_string())),
            ("bar".to_string(), Value::Text("there".to_string())),
        ])
    );
}

#[test]
fn is_match_agrees_with_the_pattern() {
    let pattern = Pattern::new(r"\d{3}").unwrap();
    assert!(pattern.is_match("abc123"));
    assert!(!pattern.is_match("abc12"));
    assert!(recap::pattern::matches(&pattern, "999!"));
    assert!(!recap::pattern::matches(&pattern, ""));
}

#[test]
fn rejects_an_ill_formed_pattern() {
    assert!(Pattern::new("foo(bar").is_none());
    assert!(Pattern::new("foo(bar)").is_some());
}

#[test]
fn binds_hand_built_captures() {
    let caps = recap::CaptureSet {
        pairs: vec![
            ("id".to_string(), "17".to_string()),
            ("note".to_string(), "ok".to_string()),
        ],
    };
    let shape = RecordShape {
        fields: vec![
            FieldSpec::plain("id", FieldKind::Scalar(ScalarKind::U8)),
            FieldSpec::plain("note", FieldKind::Scalar(ScalarKind::Text)),
        ],
    };
    assert_eq!(
        recap::bind_captures(&shape, &caps).unwrap(),
        Value::Record(vec![
            ("id".to_string(), Value::Int(17)),
            ("note".to_string(), Value::Text("ok".to_string())),
        ])
    );
    let wrong = RecordShape {
        fields: vec![FieldSpec::plain("note", FieldKind::Scalar(ScalarKind::U8))],
    };
    assert_eq!(
        recap::bind_captures(&wrong, &caps).unwrap_err(),
        BindError::CoercionFailure {
            field: "note".to_string(),
            raw: "ok".to_string(),
            target: recap::TargetKind::Scalar(ScalarKind::U8),
        }
    );
}

#[test]
fn validate_counts_named_groups_against_fields() {
    let pattern = three_part_pattern();
    assert!(recap::validate(&pattern, &log_entry_shape()));
    let two_fields = RecordShape { fields: vec![text_field("foo"), text_field("bar")] };
    assert!(!recap::validate(&pattern, &two_fields));
    let unnamed = Pattern::new(r"(\S+) (\S+) (\S+)").unwrap();
    assert!(!recap::validate(&unnamed, &log_entry_shape()));
}
