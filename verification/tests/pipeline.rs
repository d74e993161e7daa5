use dinha::event_processor::{process_event_at, process_next_at};
use dinha::event_queue::{EventQueue, FsEvent};
use dinha::file_store::{find_file, FileStore};
use dinha::reconciler::Reconciler;
use dinha::watch_store::{delete_watch, list_watches, upsert_watch_at, WatchStore};

#[test]
fn queue_is_first_in_first_out() {
    let mut q = EventQueue::new();
    q.push_back(FsEvent::Create(String::from("/x")));
    q.push_back(FsEvent::Write(String::from("/y")));
    q.push_back(FsEvent::NoticeWrite(String::from("/x")));
    assert_eq!(q.len(), 3);
    match q.pop_front().unwrap() {
        FsEvent::Create(p) => assert_eq!(p, "/x"),
        _ => panic!("expected the first enqueued event"),
    }
    match q.pop_front().unwrap() {
        FsEvent::Write(p) => assert_eq!(p, "/y"),
        _ => panic!("expected the second enqueued event"),
    }
    match q.pop_front().unwrap() {
        FsEvent::NoticeWrite(p) => assert_eq!(p, "/x"),
        _ => panic!("expected the third enqueued event"),
    }
    assert!(q.pop_front().is_none());
}

#[test]
fn events_process_in_enqueue_order() {
    let mut q = EventQueue::new();
    q.push_back(FsEvent::Create(String::from("/x")));
    q.push_back(FsEvent::Create(String::from("/y")));
    q.push_back(FsEvent::Write(String::from("/x")));
    let mut files = FileStore::new();
    assert!(process_next_at(&mut q, &mut files, 100));
    assert!(process_next_at(&mut q, &mut files, 200));
    assert!(process_next_at(&mut q, &mut files, 300));
    assert!(!process_next_at(&mut q, &mut files, 400));
    // One row per path, and /x reflects its second (later) event.
    assert_eq!(files.rows.len(), 2);
    let x = find_file(&files, &String::from("/x")).unwrap();
    assert_eq!(x.modified_at, 300);
    assert_eq!(x.inserted_at, 100);
    let y = find_file(&files, &String::from("/y")).unwrap();
    assert_eq!(y.modified_at, 200);
}

#[test]
fn other_events_change_nothing() {
    let mut files = FileStore::new();
    process_event_at(&mut files, &FsEvent::Other, 100);
    assert_eq!(files.rows.len(), 0);
}

#[test]
fn tick_on_empty_queue_does_nothing() {
    let mut q = EventQueue::new();
    let mut files = FileStore::new();
    assert!(!process_next_at(&mut q, &mut files, 100));
    assert_eq!(files.rows.len(), 0);
    assert_eq!(q.len(), 0);
}

#[test]
fn reconciler_adds_new_watch_within_one_cycle() {
    let mut store = WatchStore::new();
    upsert_watch_at(&mut store, String::from("/a"), None, 10);
    let mut rec = Reconciler::new();
    let desired = list_watches(&store);
    let plan = rec.plan(&desired);
    assert_eq!(plan.to_add, vec![String::from("/a")]);
    assert_eq!(plan.to_remove.len(), 0);
    for p in plan.to_add {
        rec.note_added(p);
    }
    assert_eq!(rec.live, vec![String::from("/a")]);
    // The next cycle has nothing left to do: the live set converged.
    let plan = rec.plan(&list_watches(&store));
    assert_eq!(plan.to_add.len(), 0);
    assert_eq!(plan.to_remove.len(), 0);
}

#[test]
fn reconciler_removes_deleted_watch_within_one_cycle() {
    let mut store = WatchStore::new();
    upsert_watch_at(&mut store, String::from("/a"), None, 10);
    upsert_watch_at(&mut store, String::from("/b"), None, 20);
    let mut rec = Reconciler::new();
    let plan = rec.plan(&list_watches(&store));
    for p in plan.to_add {
        rec.note_added(p);
    }
    assert_eq!(rec.live.len(), 2);
    delete_watch(&mut store, &String::from("/a"));
    let plan = rec.plan(&list_watches(&store));
    assert_eq!(plan.to_add.len(), 0);
    assert_eq!(plan.to_remove, vec![String::from("/a")]);
    for p in &plan.to_remove {
        rec.note_removed(p);
    }
    assert_eq!(rec.live, vec![String::from("/b")]);
}

#[test]
fn failed_registration_stays_out_of_live_set_and_is_retried() {
    let mut store = WatchStore::new();
    upsert_watch_at(&mut store, String::from("/ok"), None, 10);
    upsert_watch_at(&mut store, String::from("/bad"), None, 20);
    let mut rec = Reconciler::new();
    let plan = rec.plan(&list_watches(&store));
    assert_eq!(plan.to_add.len(), 2);
    for p in plan.to_add {
        // Suppose registering "/bad" failed: only "/ok" becomes live.
        if p == "/ok" {
            rec.note_added(p);
        }
    }
    let plan = rec.plan(&list_watches(&store));
    assert_eq!(plan.to_add, vec![String::from("/bad")]);
}

#[test]
fn end_to_end_watch_then_event() {
    let mut store = WatchStore::new();
    let t0: i64 = 1_700_000_000;
    upsert_watch_at(&mut store, String::from("/tmp/a"), Some(86400), t0);
    let rows = list_watches(&store);
    assert_eq!(rows.len(), 1);
    assert_eq!(rows[0].absolute_file_path, "/tmp/a");
    assert_eq!(rows[0].default_expiration, Some(86400));

    let mut q = EventQueue::new();
    q.push_back(FsEvent::Create(String::from("/tmp/a")));
    let mut files = FileStore::new();
    let t1 = t0 + 5;
    assert!(process_next_at(&mut q, &mut files, t1));
    let f = find_file(&files, &String::from("/tmp/a")).unwrap();
    let expiration = f.expiration.expect("a freshly observed file carries an expiration");
    assert!(expiration > t1);
}
