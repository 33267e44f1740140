//! The console's command grammar, listing-body parsing, and the table
//! helpers.

use parquet_viewer::ViewerError;
use parquet_viewer::browser::ProviderKind;
use parquet_viewer::console::Command;
use parquet_viewer::console::Console;
use parquet_viewer::console::parse_command;
use parquet_viewer::http::parse_object_listing;
use parquet_viewer::utils::compute_col_max_len;
use parquet_viewer::utils::u64_to_string;

fn args(words: &[&str]) -> Vec<String> {
    words.iter().map(|w| w.to_string()).collect()
}

#[test]
fn commands_parse() {
    assert!(matches!(parse_command(&args(&[])), Command::Empty));
    match parse_command(&args(&["ls"])) {
        Command::Ls { path } => assert_eq!(path, ""),
        _ => panic!("expected ls"),
    }
    match parse_command(&args(&["ls", "sub"])) {
        Command::Ls { path } => assert_eq!(path, "sub"),
        _ => panic!("expected ls"),
    }
    match parse_command(&args(&["set_endpoint", "/d"])) {
        Command::SetEndpoint { endpoint } => assert_eq!(endpoint.as_deref(), Some("/d")),
        _ => panic!("expected set_endpoint"),
    }
    assert!(matches!(
        parse_command(&args(&["set_endpoint"])),
        Command::SetEndpoint { endpoint: None }
    ));
    match parse_command(&args(&["cd", "up"])) {
        Command::Cd { path } => assert_eq!(path.as_deref(), Some("up")),
        _ => panic!("expected cd"),
    }
    assert!(matches!(parse_command(&args(&["cd"])), Command::Cd { path: None }));
    assert!(matches!(parse_command(&args(&["pwd"])), Command::Pwd));
    match parse_command(&args(&["view", "f.parquet"])) {
        Command::View { path } => assert_eq!(path.as_deref(), Some("f.parquet")),
        _ => panic!("expected view"),
    }
    assert!(matches!(parse_command(&args(&["view"])), Command::View { path: None }));
    assert!(matches!(parse_command(&args(&["history"])), Command::History));
    assert!(matches!(parse_command(&args(&["help"])), Command::Help));
    assert!(matches!(parse_command(&args(&["exit"])), Command::Exit));
    match parse_command(&args(&["frobnicate", "x"])) {
        Command::Unknown { name } => assert_eq!(name, "frobnicate"),
        _ => panic!("expected unknown"),
    }
}

#[test]
fn console_picks_provider_by_scheme() {
    let c = Console::new("https://host/bucket/").unwrap();
    assert_eq!(c.get_provider(), ProviderKind::Http);
    assert_eq!(c.get_current_dir(), "https://host/bucket/");
    let mut l = Console::new("/mnt/data").unwrap();
    assert_eq!(l.get_provider(), ProviderKind::LocalFs);
    l.set_endpoint("http://h/".to_string());
    assert_eq!(l.get_provider(), ProviderKind::Http);
}

#[test]
fn listing_bodies_parse() {
    let body = r#"{"objects":[{"name":"a.txt","size":3},{"other":1},{"name":"b/c.parquet"}],"next":null}"#;
    let rows = parse_object_listing(body).unwrap();
    assert_eq!(rows, vec![vec!["a.txt".to_string()], vec!["b/c.parquet".to_string()]]);

    let empty = parse_object_listing(r#"{"objects":[]}"#).unwrap();
    assert!(empty.is_empty());

    // A non-string name is no name.
    let odd = parse_object_listing(r#"{"objects":[{"name":7}]}"#).unwrap();
    assert!(odd.is_empty());
}

#[test]
fn bad_listing_bodies_are_refused() {
    assert!(matches!(parse_object_listing("not json").unwrap_err(), ViewerError::Decode));
    assert!(matches!(parse_object_listing(r#"{"items":[]}"#).unwrap_err(), ViewerError::Decode));
    assert!(matches!(
        parse_object_listing(r#"{"objects":42}"#).unwrap_err(),
        ViewerError::Decode
    ));
}

#[test]
fn decimal_rendering() {
    assert_eq!(u64_to_string(0), "0");
    assert_eq!(u64_to_string(9), "9");
    assert_eq!(u64_to_string(10), "10");
    assert_eq!(u64_to_string(65537), "65537");
    assert_eq!(u64_to_string(u64::MAX), "18446744073709551615");
}

#[test]
fn column_widths_cover_ragged_rows() {
    let rows = vec![
        vec!["name".to_string(), "off".to_string()],
        vec!["x".to_string(), "12345".to_string(), "extra".to_string()],
        vec!["longest-name".to_string()],
    ];
    let widths = compute_col_max_len(&rows);
    assert_eq!(widths, vec![12, 5, 5]);
    assert!(compute_col_max_len(&Vec::new()).is_empty());
}

#[test]
fn entry_span_adds_header_and_payload() {
    assert_eq!(parquet_viewer::zip::entry_span(5, 4, 100), Some(139));
    assert_eq!(parquet_viewer::zip::entry_span(0, 0, 0), Some(30));
    assert_eq!(parquet_viewer::zip::entry_span(u64::MAX - 10, 0, 0), None);
    assert_eq!(parquet_viewer::zip::entry_span(0, 5, u64::MAX - 20), None);
}

#[test]
fn error_messages_name_the_failure() {
    assert_eq!(
        ViewerError::CannotDescendIntoArchive.message(),
        "Cannot change directory inside a ZIP file"
    );
    assert_eq!(ViewerError::TransportError.message(), "transport error");
}
