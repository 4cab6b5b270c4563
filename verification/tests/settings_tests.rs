use airtable_cli::errors::{check_status, CliError};
use airtable_cli::repl::{validate_line, LineOutcome};
use airtable_cli::settings::{AppConfig, TableRef};

fn config() -> AppConfig {
    AppConfig {
        api_key: "key".to_string(),
        tables: vec![
            (
                "clients".to_string(),
                TableRef { base_id: "app1".to_string(), table_name: "Clients".to_string() },
            ),
            (
                "orders".to_string(),
                TableRef { base_id: "app2".to_string(), table_name: "Orders".to_string() },
            ),
        ],
    }
}

#[test]
fn lookup_resolves_known_names() {
    let cfg = config();
    let t = cfg.lookup("orders").unwrap();
    assert_eq!(t.base_id, "app2");
    assert_eq!(t.table_name, "Orders");
    assert_eq!(cfg.lookup("missing"), None);
}

#[test]
fn unknown_config_name_is_config_not_found() {
    let cfg = config();
    assert!(cfg.require_table("clients").is_ok());
    assert_eq!(cfg.require_table("nope"), Err(CliError::ConfigNotFound));
}

#[test]
fn non_success_status_surfaces_as_remote_error() {
    assert_eq!(check_status(200, "ok".to_string()), Ok("ok".to_string()));
    assert_eq!(check_status(299, "ok".to_string()), Ok("ok".to_string()));
    assert_eq!(
        check_status(404, "gone".to_string()),
        Err(CliError::RemoteError { status: 404, body: "gone".to_string() })
    );
    assert_eq!(
        check_status(500, "boom".to_string()),
        Err(CliError::RemoteError { status: 500, body: "boom".to_string() })
    );
}

fn known() -> Vec<String> {
    vec!["Name".to_string(), "Status".to_string()]
}

#[test]
fn line_with_known_key_is_accepted() {
    assert_eq!(
        validate_line("Status=Active", &known()),
        LineOutcome::Accepted { key: "Status".to_string(), value: "Active".to_string() }
    );
}

#[test]
fn line_with_unknown_key_is_rejected_by_name() {
    assert_eq!(
        validate_line("Foo=1", &known()),
        LineOutcome::UnknownField { key: "Foo".to_string() }
    );
}

#[test]
fn malformed_lines_are_invalid() {
    assert_eq!(validate_line("no separator", &known()), LineOutcome::Invalid);
    assert_eq!(validate_line("a=b=c", &known()), LineOutcome::Invalid);
    assert_eq!(validate_line("", &known()), LineOutcome::Invalid);
}
