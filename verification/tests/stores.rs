use dinha::file_store::{create_new_file_at, find_file, FileStore, FILE_EXPIRATION_OFFSET_SECONDS};
use dinha::watch_store::{delete_watch, find_watch, list_watches, upsert_watch_at, WatchStore};

#[test]
fn upsert_watch_inserts_new_row() {
    let mut store = WatchStore::new();
    upsert_watch_at(&mut store, String::from("/home/user"), Some(3600), 1000);
    let rows = list_watches(&store);
    assert_eq!(rows.len(), 1);
    assert_eq!(rows[0].absolute_file_path, "/home/user");
    assert_eq!(rows[0].created_at, 1000);
    assert_eq!(rows[0].default_expiration, Some(3600));
}

#[test]
fn upsert_watch_twice_is_idempotent() {
    let mut store = WatchStore::new();
    upsert_watch_at(&mut store, String::from("/a"), Some(86400), 1000);
    upsert_watch_at(&mut store, String::from("/a"), Some(86400), 2000);
    let rows = list_watches(&store);
    assert_eq!(rows.len(), 1);
    assert_eq!(rows[0].absolute_file_path, "/a");
    assert_eq!(rows[0].created_at, 1000);
    assert_eq!(rows[0].default_expiration, Some(86400));
}

#[test]
fn upsert_watch_updates_expiration_keeps_created_at() {
    let mut store = WatchStore::new();
    upsert_watch_at(&mut store, String::from("/a"), Some(60), 1000);
    upsert_watch_at(&mut store, String::from("/a"), None, 2000);
    let rows = list_watches(&store);
    assert_eq!(rows.len(), 1);
    assert_eq!(rows[0].created_at, 1000);
    assert_eq!(rows[0].default_expiration, None);
}

#[test]
fn find_watch_present_and_absent() {
    let mut store = WatchStore::new();
    upsert_watch_at(&mut store, String::from("/a"), None, 10);
    upsert_watch_at(&mut store, String::from("/b"), Some(5), 20);
    let found = find_watch(&store, &String::from("/b")).unwrap();
    assert_eq!(found.absolute_file_path, "/b");
    assert_eq!(found.default_expiration, Some(5));
    assert!(find_watch(&store, &String::from("/c")).is_none());
}

#[test]
fn delete_watch_removes_row() {
    let mut store = WatchStore::new();
    upsert_watch_at(&mut store, String::from("/a"), None, 10);
    upsert_watch_at(&mut store, String::from("/b"), None, 20);
    delete_watch(&mut store, &String::from("/a"));
    let rows = list_watches(&store);
    assert_eq!(rows.len(), 1);
    assert_eq!(rows[0].absolute_file_path, "/b");
}

#[test]
fn delete_watch_on_missing_path_is_noop() {
    let mut store = WatchStore::new();
    upsert_watch_at(&mut store, String::from("/a"), Some(1), 10);
    delete_watch(&mut store, &String::from("/nope"));
    let rows = list_watches(&store);
    assert_eq!(rows.len(), 1);
    assert_eq!(rows[0].absolute_file_path, "/a");
    assert_eq!(rows[0].created_at, 10);
    assert_eq!(rows[0].default_expiration, Some(1));
}

#[test]
fn delete_watch_on_empty_store_is_noop() {
    let mut store = WatchStore::new();
    delete_watch(&mut store, &String::from("/nope"));
    assert_eq!(list_watches(&store).len(), 0);
}

#[test]
fn first_event_creates_file_row() {
    let mut files = FileStore::new();
    create_new_file_at(&mut files, &String::from("/tmp/a"), 5000);
    let f = find_file(&files, &String::from("/tmp/a")).unwrap();
    assert_eq!(f.absolute_file_path, "/tmp/a");
    assert_eq!(f.inserted_at, 5000);
    assert_eq!(f.modified_at, 5000);
    assert_eq!(f.expiration, Some(5000 + FILE_EXPIRATION_OFFSET_SECONDS));
}

#[test]
fn later_event_keeps_inserted_at_and_extends_expiration() {
    let mut files = FileStore::new();
    create_new_file_at(&mut files, &String::from("/tmp/a"), 5000);
    create_new_file_at(&mut files, &String::from("/tmp/a"), 9000);
    assert_eq!(files.rows.len(), 1);
    let f = find_file(&files, &String::from("/tmp/a")).unwrap();
    assert_eq!(f.inserted_at, 5000);
    assert_eq!(f.modified_at, 9000);
    assert_eq!(f.expiration, Some(9000 + FILE_EXPIRATION_OFFSET_SECONDS));
}

#[test]
fn expiration_never_decreases_across_events() {
    let mut files = FileStore::new();
    let path = String::from("/tmp/mono");
    let times = [100i64, 100, 250, 4000, 4000, 100000];
    let mut last_expiration = i64::MIN;
    for t in times {
        create_new_file_at(&mut files, &path, t);
        let f = find_file(&files, &path).unwrap();
        let e = f.expiration.unwrap();
        assert!(e >= last_expiration);
        assert!(e >= f.inserted_at);
        last_expiration = e;
    }
}

#[test]
fn expiration_saturates_instead_of_overflowing() {
    let mut files = FileStore::new();
    create_new_file_at(&mut files, &String::from("/tmp/a"), i64::MAX - 1);
    let f = find_file(&files, &String::from("/tmp/a")).unwrap();
    assert_eq!(f.expiration, Some(i64::MAX));
}

#[test]
fn find_file_absent_is_none() {
    let files = FileStore::new();
    assert!(find_file(&files, &String::from("/tmp/a")).is_none());
}

#[test]
fn clock_backed_operations_record_rows() {
    let mut store = WatchStore::new();
    dinha::clock::upsert_watch(&mut store, String::from("/a"), Some(7));
    let rows = list_watches(&store);
    assert_eq!(rows.len(), 1);
    assert_eq!(rows[0].default_expiration, Some(7));
    // The registration time came from the wall clock: well past the epoch.
    assert!(rows[0].created_at > 1_000_000_000);

    let mut files = FileStore::new();
    dinha::clock::create_new_file(&mut files, &String::from("/tmp/x"));
    let f = find_file(&files, &String::from("/tmp/x")).unwrap();
    assert!(f.inserted_at > 1_000_000_000);
    assert_eq!(f.expiration, Some(f.modified_at + FILE_EXPIRATION_OFFSET_SECONDS));
}
