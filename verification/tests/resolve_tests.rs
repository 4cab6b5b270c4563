use airtable_cli::errors::CliError;
use airtable_cli::resolve::{flags_conflict, resolve, Flags, Intent, RECENT_PAGE_SIZE};
use airtable_cli::values::RecordValue;

fn no_flags() -> Flags {
    Flags { schema: false, fields: false, recent: false }
}

fn toks(ts: &[&str]) -> Vec<String> {
    ts.iter().map(|s| s.to_string()).collect()
}

#[test]
fn schema_flag_wins_regardless_of_id_and_tokens() {
    let flags = Flags { schema: true, fields: false, recent: true };
    let r = resolve(flags, Some("rec123".to_string()), toks(&["A=1", "B"]), Vec::new());
    assert_eq!(r, Ok(Intent::ShowSchema));
    let r2 = resolve(flags, None, Vec::new(), Vec::new());
    assert_eq!(r2, Ok(Intent::ShowSchema));
}

#[test]
fn fields_flag_comes_second() {
    let flags = Flags { schema: false, fields: true, recent: true };
    let r = resolve(flags, Some("rec123".to_string()), toks(&["A"]), Vec::new());
    assert_eq!(r, Ok(Intent::ShowWritableFields));
}

#[test]
fn recent_flag_carries_the_fixed_page_and_view() {
    let flags = Flags { schema: false, fields: false, recent: true };
    let r = resolve(flags, None, Vec::new(), Vec::new());
    assert_eq!(
        r,
        Ok(Intent::ShowRecentRecords { page_size: RECENT_PAGE_SIZE, view_name: "Grid view".to_string() })
    );
    assert_eq!(RECENT_PAGE_SIZE, 100);
}

#[test]
fn record_id_without_tokens_reads_the_whole_record() {
    let r = resolve(no_flags(), Some("rec123".to_string()), Vec::new(), Vec::new());
    assert_eq!(r, Ok(Intent::ReadWholeRecord { id: "rec123".to_string() }));
}

#[test]
fn batch_without_equals_reads_selected_fields() {
    let r = resolve(no_flags(), Some("rec123".to_string()), toks(&["Name", "Status"]), Vec::new());
    assert_eq!(
        r,
        Ok(Intent::ReadSelectedFields {
            id: "rec123".to_string(),
            names: toks(&["Name", "Status"]),
        })
    );
}

#[test]
fn update_batch_encodes_each_pair() {
    let r = resolve(
        no_flags(),
        Some("rec123".to_string()),
        toks(&["Status=Active", "Score=5"]),
        Vec::new(),
    );
    assert_eq!(
        r,
        Ok(Intent::UpdateFields {
            id: "rec123".to_string(),
            updates: vec![
                ("Status".to_string(), RecordValue::Str("Active".to_string())),
                ("Score".to_string(), RecordValue::Num("5".to_string())),
            ],
        })
    );
}

#[test]
fn update_splits_at_the_first_equals_only() {
    let r = resolve(no_flags(), Some("r1".to_string()), toks(&["Note=a=b"]), Vec::new());
    assert_eq!(
        r,
        Ok(Intent::UpdateFields {
            id: "r1".to_string(),
            updates: vec![("Note".to_string(), RecordValue::Str("a=b".to_string()))],
        })
    );
}

#[test]
fn mixed_batch_is_a_hard_error() {
    let r = resolve(
        no_flags(),
        Some("rec123".to_string()),
        toks(&["Status=Active", "Score"]),
        Vec::new(),
    );
    assert_eq!(r, Err(CliError::InvalidFieldFormat));
    let r2 = resolve(no_flags(), Some("rec123".to_string()), toks(&["Plain", "A=1"]), Vec::new());
    assert_eq!(r2, Err(CliError::InvalidFieldFormat));
}

#[test]
fn no_record_id_creates_a_blank_record_from_the_allow_list() {
    let writable = toks(&["Name", "Status"]);
    let r = resolve(no_flags(), None, Vec::new(), writable.clone());
    assert_eq!(r, Ok(Intent::CreateBlankRecord { names: writable }));
}

#[test]
fn conflicting_flags_are_detected_before_resolution() {
    assert!(flags_conflict(&Flags { schema: true, fields: true, recent: false }));
    assert!(!flags_conflict(&Flags { schema: true, fields: false, recent: true }));
    assert!(!flags_conflict(&no_flags()));
}
