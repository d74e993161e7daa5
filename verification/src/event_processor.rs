//! Drains the event queue into the file store: each tick takes the oldest
//! buffered event, classifies it, and records the kinds that touch a file.
use crate::event_queue::{EventQueue, FsEvent, FsEventView};
use crate::file_store::{upsert_event_spec, FileStore, FileView};
use vstd::prelude::*;

verus! {

/// What one event does to the file rows: the kinds carrying a path record an
/// event on that path; every other kind leaves the rows unchanged.
pub open spec fn process_event_spec(rows: Seq<FileView>, ev: FsEventView, now: int) -> Seq<
    FileView,
> {
    match ev {
        FsEventView::NoticeWrite(p) => upsert_event_spec(rows, p, now),
        FsEventView::Write(p) => upsert_event_spec(rows, p, now),
        FsEventView::Create(p) => upsert_event_spec(rows, p, now),
        FsEventView::Other => rows,
    }
}

/// Applies one event, observed at time `now`, to the file store.
pub fn process_event_at(store: &mut FileStore, event: &FsEvent, now: i64)
    requires
        old(store).wf(),
    ensures
        final(store)@ == process_event_spec(old(store)@, event@, now as int),
        final(store).wf(),
{
    match event {
        FsEvent::NoticeWrite(p) => crate::file_store::create_new_file_at(store, p, now),
        FsEvent::Write(p) => crate::file_store::create_new_file_at(store, p, now),
        FsEvent::Create(p) => crate::file_store::create_new_file_at(store, p, now),
        FsEvent::Other => (),
    }
}

/// One processor tick at time `now`: takes the oldest buffered event, if
/// any, and applies it to the file store. Returns whether an event was
/// processed. Events leave the queue, and reach the store, strictly in the
/// order they were enqueued.
pub fn process_next_at(queue: &mut EventQueue, store: &mut FileStore, now: i64) -> (processed:
    bool)
    requires
        old(store).wf(),
    ensures
        final(store).wf(),
        old(queue)@.len() == 0 ==> !processed && final(queue)@ == old(queue)@ && final(store)@
            == old(store)@,
        old(queue)@.len() > 0 ==> processed && final(queue)@ == old(queue)@.subrange(
            1,
            old(queue)@.len() as int,
        ) && final(store)@ == process_event_spec(old(store)@, old(queue)@[0], now as int),
{
    let event = queue.pop_front();
    match event {
        Some(ev) => {
            process_event_at(store, &ev, now);
            true
        },
        None => false,
    }
}

} // verus!
