use airtable_cli::project::{find_field, project_recent, project_selected, project_whole, Record};
use airtable_cli::values::RecordValue;

fn rec(id: &str, fields: Vec<(&str, RecordValue)>) -> Record {
    Record {
        id: id.to_string(),
        fields: fields.into_iter().map(|(k, v)| (k.to_string(), v)).collect(),
    }
}

#[test]
fn whole_record_projects_every_field_in_order() {
    let r = rec(
        "rec1",
        vec![
            ("Name", RecordValue::Str("Ada".to_string())),
            ("Score", RecordValue::Num("5".to_string())),
            ("Tags", RecordValue::Arr("[\"x\"]".to_string())),
        ],
    );
    let out = project_whole(&r);
    assert_eq!(
        out,
        vec![
            ("Name".to_string(), "Ada".to_string()),
            ("Score".to_string(), "5".to_string()),
            ("Tags".to_string(), "[\"x\"]".to_string()),
        ]
    );
}

#[test]
fn selected_fields_use_the_no_value_sentinel() {
    let r = rec("rec1", vec![("Name", RecordValue::Str("Ada".to_string()))]);
    let names = vec!["Name".to_string(), "Missing".to_string()];
    let out = project_selected(&r, &names);
    assert_eq!(
        out,
        vec![
            ("Name".to_string(), "Ada".to_string()),
            ("Missing".to_string(), "<no value>".to_string()),
        ]
    );
}

#[test]
fn recent_listing_without_a_name_key_uses_the_sentinel() {
    let with_name = rec("rec1", vec![("Name", RecordValue::Str("Ada".to_string()))]);
    let without_name = rec(
        "rec2",
        vec![("Other", RecordValue::Str("no-name-field-present-is-absent".to_string()))],
    );
    let out = project_recent(&vec![with_name, without_name]);
    assert_eq!(
        out,
        vec![
            ("rec1".to_string(), "Ada".to_string()),
            ("rec2".to_string(), "<no name>".to_string()),
        ]
    );
}

#[test]
fn recent_listing_with_a_non_string_name_uses_the_sentinel() {
    let r = rec("rec3", vec![("Name", RecordValue::Num("7".to_string()))]);
    let out = project_recent(&vec![r]);
    assert_eq!(out, vec![("rec3".to_string(), "<no name>".to_string())]);
}

#[test]
fn find_field_takes_the_first_match() {
    let r = rec(
        "rec1",
        vec![
            ("A", RecordValue::Num("1".to_string())),
            ("A", RecordValue::Num("2".to_string())),
        ],
    );
    assert_eq!(find_field(&r, "A"), Some(&RecordValue::Num("1".to_string())));
    assert_eq!(find_field(&r, "B"), None);
}
