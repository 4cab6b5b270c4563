use airtable_cli::values::{display_value, encode, RecordValue};

#[test]
fn encode_reads_json_scalars() {
    assert_eq!(encode("42"), RecordValue::Num("42".to_string()));
    assert_eq!(encode("true"), RecordValue::Bool(true));
    assert_eq!(encode("false"), RecordValue::Bool(false));
    assert_eq!(encode("null"), RecordValue::Null);
}

#[test]
fn encode_reads_json_composites() {
    assert_eq!(encode("[\"a\",\"b\"]"), RecordValue::Arr("[\"a\",\"b\"]".to_string()));
    assert_eq!(encode("{\"a\":1}"), RecordValue::Obj("{\"a\":1}".to_string()));
}

#[test]
fn encode_falls_back_to_plain_string() {
    assert_eq!(encode("hello world"), RecordValue::Str("hello world".to_string()));
    assert_eq!(encode("Active"), RecordValue::Str("Active".to_string()));
    // A trailing comma is not JSON: the whole token degrades to a string.
    assert_eq!(encode("[1,]"), RecordValue::Str("[1,]".to_string()));
}

#[test]
fn encode_unwraps_quoted_json_strings() {
    // A quoted token parses as a JSON string, so the value is its content,
    // not the token text: encoding is not the identity on the raw token.
    assert_eq!(encode("\"42\""), RecordValue::Str("42".to_string()));
    assert_ne!(encode("42"), RecordValue::Str("42".to_string()));
}

#[test]
fn display_renders_scalars_as_their_literal_token() {
    assert_eq!(display_value(&encode("42")), "42");
    assert_eq!(display_value(&encode("true")), "true");
    assert_eq!(display_value(&encode("null")), "null");
    assert_eq!(display_value(&encode("hello")), "hello");
    assert_eq!(display_value(&encode("[1, 2]")), "[1,2]");
}
