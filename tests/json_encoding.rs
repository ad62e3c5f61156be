use eserde_axum::json::{write_decimal, write_string, write_value, JsonValue};

fn encode(v: &JsonValue) -> String {
    let mut out = Vec::new();
    write_value(v, &mut out);
    String::from_utf8(out).unwrap()
}

#[test]
fn scalars() {
    assert_eq!(encode(&JsonValue::Null), "null");
    assert_eq!(encode(&JsonValue::Bool(true)), "true");
    assert_eq!(encode(&JsonValue::Bool(false)), "false");
    assert_eq!(encode(&JsonValue::Number(0)), "0");
    assert_eq!(encode(&JsonValue::Number(1234567)), "1234567");
    assert_eq!(encode(&JsonValue::Number(u64::MAX)), "18446744073709551615");
    assert_eq!(encode(&JsonValue::Str("hi".into())), r#""hi""#);
}

#[test]
fn containers() {
    assert_eq!(encode(&JsonValue::Array(vec![])), "[]");
    assert_eq!(encode(&JsonValue::Object(vec![])), "{}");
    let v = JsonValue::Object(vec![
        ("a".into(), JsonValue::Array(vec![JsonValue::Number(1), JsonValue::Null])),
        (
            "b".into(),
            JsonValue::Object(vec![("c".into(), JsonValue::Bool(false))]),
        ),
    ]);
    assert_eq!(encode(&v), r#"{"a":[1,null],"b":{"c":false}}"#);
}

#[test]
fn decimal_digits_append() {
    let mut out = b"x".to_vec();
    write_decimal(509, &mut out);
    assert_eq!(out, b"x509".to_vec());
}

#[test]
fn string_quoting_escapes() {
    let mut out = Vec::new();
    write_string("a\"b\\c\u{1}", &mut out);
    assert_eq!(String::from_utf8(out).unwrap(), r#""a\"b\\c\u0001""#);
}
