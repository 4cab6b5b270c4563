use airtable_cli::schema::{classify, select_table_fields, FieldDef};

fn fd(name: &str, ty: &str) -> FieldDef {
    FieldDef { name: name.to_string(), field_type: ty.to_string() }
}

#[test]
fn classify_partitions_on_the_six_computed_types() {
    let fields = vec![
        fd("Name", "singleLineText"),
        fd("Total", "formula"),
        fd("Score", "number"),
        fd("Rolled", "rollup"),
        fd("Looked", "lookup"),
        fd("Changed", "lastModifiedTime"),
        fd("Made", "createdTime"),
        fd("Derived", "computed"),
    ];
    let (writable, computed) = classify(&fields);
    assert_eq!(writable, vec!["Name".to_string(), "Score".to_string()]);
    assert_eq!(
        computed,
        vec![
            "Total".to_string(),
            "Rolled".to_string(),
            "Looked".to_string(),
            "Changed".to_string(),
            "Made".to_string(),
            "Derived".to_string()
        ]
    );
    // Disjoint, and together they cover the input.
    assert_eq!(writable.len() + computed.len(), fields.len());
    for w in &writable {
        assert!(!computed.contains(w));
    }
}

#[test]
fn classify_treats_unknown_types_as_writable() {
    let fields = vec![fd("A", "multipleAttachments"), fd("B", "checkbox"), fd("C", "barcode")];
    let (writable, computed) = classify(&fields);
    assert_eq!(writable.len(), 3);
    assert!(computed.is_empty());
}

#[test]
fn classify_of_empty_schema_is_empty() {
    let fields: Vec<FieldDef> = Vec::new();
    let (writable, computed) = classify(&fields);
    assert!(writable.is_empty());
    assert!(computed.is_empty());
}

#[test]
fn select_table_fields_takes_first_matching_table() {
    let tables = vec![
        ("other".to_string(), vec![fd("X", "number")]),
        ("clients".to_string(), vec![fd("Name", "singleLineText")]),
        ("clients".to_string(), vec![fd("Shadowed", "number")]),
    ];
    let fields = select_table_fields(&tables, "clients");
    assert_eq!(fields.len(), 1);
    assert_eq!(fields[0].name, "Name");
}

#[test]
fn select_table_fields_unknown_table_is_empty() {
    let tables = vec![("other".to_string(), vec![fd("X", "number")])];
    let fields = select_table_fields(&tables, "clients");
    assert!(fields.is_empty());
}
