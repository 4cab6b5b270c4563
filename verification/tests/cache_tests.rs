use airtable_cli::cachefmt::{decode_cache, parse_cache, serialize_cache};
use airtable_cli::errors::CliError;
use airtable_cli::schema::FieldDef;

fn fd(name: &str, ty: &str) -> FieldDef {
    FieldDef { name: name.to_string(), field_type: ty.to_string() }
}

#[test]
fn serialize_matches_the_artifact_format() {
    let fields = vec![fd("Name", "singleLineText"), fd("Score", "number")];
    let text = serialize_cache(&fields);
    assert_eq!(
        text,
        "[{\"name\":\"Name\",\"type\":\"singleLineText\"},{\"name\":\"Score\",\"type\":\"number\"}]"
    );
    // The artifact is plain JSON: an independent reader agrees on it.
    let v: serde_json::Value = serde_json::from_str(&text).unwrap();
    assert_eq!(v[0]["name"], serde_json::Value::String("Name".to_string()));
    assert_eq!(v[1]["type"], serde_json::Value::String("number".to_string()));
}

#[test]
fn serialize_escapes_quotes_and_backslashes() {
    let fields = vec![fd("Na\"me", "a\\b")];
    let text = serialize_cache(&fields);
    assert_eq!(text, "[{\"name\":\"Na\\\"me\",\"type\":\"a\\\\b\"}]");
    let v: serde_json::Value = serde_json::from_str(&text).unwrap();
    assert_eq!(v[0]["name"], serde_json::Value::String("Na\"me".to_string()));
}

#[test]
fn serialize_of_empty_schema_is_the_empty_array() {
    let fields: Vec<FieldDef> = Vec::new();
    assert_eq!(serialize_cache(&fields), "[]");
    assert_eq!(parse_cache("[]"), Some(Vec::new()));
}

#[test]
fn parse_inverts_serialize() {
    let fields = vec![fd("Name", "singleLineText"), fd("We\"ird\\", "formula"), fd("Z", "rollup")];
    let text = serialize_cache(&fields);
    assert_eq!(parse_cache(&text), Some(fields));
}

#[test]
fn parse_rejects_malformed_artifacts() {
    assert_eq!(parse_cache(""), None);
    assert_eq!(parse_cache("{"), None);
    assert_eq!(parse_cache("[{\"name\":\"A\"}]"), None);
    assert_eq!(parse_cache("[{\"name\":\"A\",\"type\":\"number\"}] "), None);
    assert_eq!(parse_cache("[{\"name\":\"A\",\"type\":\"number\"},]"), None);
}

#[test]
fn decode_maps_the_cache_error_taxonomy() {
    assert_eq!(decode_cache(None), Err(CliError::CacheMissing));
    assert_eq!(decode_cache(Some("not json")), Err(CliError::CacheCorrupt));
    let fields = vec![fd("Name", "singleLineText")];
    let text = serialize_cache(&fields);
    assert_eq!(decode_cache(Some(&text)), Ok(fields));
}
