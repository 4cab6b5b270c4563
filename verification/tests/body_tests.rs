use airtable_cli::body::{create_body, update_body};
use airtable_cli::values::{encode, RecordValue};

#[test]
fn update_body_frames_the_encoded_pairs() {
    let updates = vec![
        ("Status".to_string(), encode("Active")),
        ("Score".to_string(), encode("5")),
    ];
    let body = update_body("rec123", &updates);
    assert_eq!(
        body,
        "{\"records\":[{\"id\":\"rec123\",\"fields\":{\"Status\":\"Active\",\"Score\":5}}]}"
    );
    // The body is valid JSON with the number kept as a number.
    let v: serde_json::Value = serde_json::from_str(&body).unwrap();
    assert_eq!(v["records"][0]["fields"]["Score"], serde_json::Value::from(5));
    assert_eq!(
        v["records"][0]["fields"]["Status"],
        serde_json::Value::String("Active".to_string())
    );
}

#[test]
fn update_body_escapes_string_values() {
    let updates = vec![("Note".to_string(), RecordValue::Str("say \"hi\"".to_string()))];
    let body = update_body("r1", &updates);
    assert_eq!(body, "{\"records\":[{\"id\":\"r1\",\"fields\":{\"Note\":\"say \\\"hi\\\"\"}}]}");
    let v: serde_json::Value = serde_json::from_str(&body).unwrap();
    assert_eq!(
        v["records"][0]["fields"]["Note"],
        serde_json::Value::String("say \"hi\"".to_string())
    );
}

#[test]
fn create_body_nulls_every_writable_field() {
    let names = vec!["Name".to_string(), "Status".to_string()];
    let body = create_body(&names);
    assert_eq!(body, "{\"records\":[{\"fields\":{\"Name\":null,\"Status\":null}}]}");
    let v: serde_json::Value = serde_json::from_str(&body).unwrap();
    assert_eq!(v["records"][0]["fields"]["Name"], serde_json::Value::Null);
    assert_eq!(v["records"][0]["fields"]["Status"], serde_json::Value::Null);
}

#[test]
fn create_body_with_no_writable_fields_is_an_empty_object() {
    let names: Vec<String> = Vec::new();
    assert_eq!(create_body(&names), "{\"records\":[{\"fields\":{}}]}");
}

#[test]
fn composite_values_pass_through_as_canonical_json() {
    let updates = vec![("Tags".to_string(), encode("[\"a\", \"b\"]"))];
    let body = update_body("r1", &updates);
    assert_eq!(body, "{\"records\":[{\"id\":\"r1\",\"fields\":{\"Tags\":[\"a\",\"b\"]}}]}");
}
