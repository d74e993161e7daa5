use dinha::duration::parse_duration;
use dinha::form::{add_watch, Field};
use dinha::watch_store::{list_watches, WatchStore};

#[test]
fn parses_days_and_hours() {
    assert_eq!(parse_duration("30d"), Some(30 * 86400));
    assert_eq!(parse_duration("24h"), Some(24 * 3600));
    assert_eq!(parse_duration("1d"), Some(86400));
    assert_eq!(parse_duration("1h"), Some(3600));
}

#[test]
fn parses_either_case() {
    assert_eq!(parse_duration("7D"), Some(7 * 86400));
    assert_eq!(parse_duration("5H"), Some(5 * 3600));
}

#[test]
fn finds_the_duration_anywhere_in_the_text() {
    assert_eq!(parse_duration("keep for 3d please"), Some(3 * 86400));
    assert_eq!(parse_duration("x007H!"), Some(7 * 3600));
}

#[test]
fn first_duration_written_wins() {
    assert_eq!(parse_duration("1h2d"), Some(3600));
    assert_eq!(parse_duration("5x3d"), Some(3 * 86400));
}

#[test]
fn zero_and_leading_zeros() {
    assert_eq!(parse_duration("0d"), Some(0));
    assert_eq!(parse_duration("007h"), Some(7 * 3600));
}

#[test]
fn no_duration_means_none() {
    assert_eq!(parse_duration(""), None);
    assert_eq!(parse_duration("abc"), None);
    assert_eq!(parse_duration("d"), None);
    assert_eq!(parse_duration("30"), None);
    assert_eq!(parse_duration("h30"), None);
    assert_eq!(parse_duration("30 d"), None);
}

#[test]
fn too_large_values_are_rejected() {
    assert_eq!(parse_duration("99999999999d"), None);
    assert_eq!(parse_duration("2147483647h"), None);
    // The largest value that still fits.
    assert_eq!(parse_duration("596523h"), Some(596523 * 3600));
    assert_eq!(parse_duration("596524h"), None);
}

#[test]
fn add_watch_parses_expiration_and_upserts() {
    let mut store = WatchStore::new();
    let fields = vec![
        Field {
            id: String::from("path"),
            label: String::from("Path (e.g. /home/user):"),
            value: String::from("/home/user"),
        },
        Field {
            id: String::from("expiration"),
            label: String::from("Expiration (e.g. 30d, 24h...):"),
            value: String::from("2d"),
        },
    ];
    assert!(add_watch(&mut store, &fields, 500));
    let rows = list_watches(&store);
    assert_eq!(rows.len(), 1);
    assert_eq!(rows[0].absolute_file_path, "/home/user");
    assert_eq!(rows[0].created_at, 500);
    assert_eq!(rows[0].default_expiration, Some(2 * 86400));
}

#[test]
fn add_watch_without_parsable_expiration_stores_none() {
    let mut store = WatchStore::new();
    let fields = vec![
        Field { id: String::from("path"), label: String::new(), value: String::from("/a") },
        Field { id: String::from("expiration"), label: String::new(), value: String::from("soon") },
    ];
    assert!(add_watch(&mut store, &fields, 500));
    let rows = list_watches(&store);
    assert_eq!(rows.len(), 1);
    assert_eq!(rows[0].default_expiration, None);
}

#[test]
fn add_watch_with_missing_field_changes_nothing() {
    let mut store = WatchStore::new();
    let fields = vec![
        Field { id: String::from("path"), label: String::new(), value: String::from("/a") },
    ];
    assert!(!add_watch(&mut store, &fields, 500));
    assert_eq!(list_watches(&store).len(), 0);
}

#[test]
fn add_watch_last_field_with_an_id_wins() {
    let mut store = WatchStore::new();
    let fields = vec![
        Field { id: String::from("path"), label: String::new(), value: String::from("/first") },
        Field { id: String::from("expiration"), label: String::new(), value: String::from("1h") },
        Field { id: String::from("path"), label: String::new(), value: String::from("/second") },
    ];
    assert!(add_watch(&mut store, &fields, 500));
    let rows = list_watches(&store);
    assert_eq!(rows.len(), 1);
    assert_eq!(rows[0].absolute_file_path, "/second");
}
