//! The one place the library reads the wall clock. Every store operation has
//! a verified variant taking the observed time as an argument; these
//! functions only bind that argument to the clock.
use crate::event_queue::FsEvent;
use crate::event_queue::EventQueue;
use crate::file_store::FileStore;
use crate::watch_store::WatchStore;
use vstd::prelude::*;

verus! {

/// Relies on chrono's `Local::now` and `DateTime::timestamp`: the current
/// local time as whole seconds since the Unix epoch. The value depends on
/// the machine's clock, so nothing is promised about it.
#[verifier::external_body]
pub(crate) fn now_timestamp() -> i64 {
    chrono::Local::now().timestamp()
}

/// Inserts or updates the watch for `path` with the clock as the
/// registration time: whatever time the clock read, the result is exactly an
/// upsert at that time.
pub fn upsert_watch(store: &mut WatchStore, path: String, expiration: Option<i32>)
    requires
        old(store).wf(),
    ensures
        final(store).wf(),
        exists|t: int|
            final(store)@ == #[trigger] crate::watch_store::upsert_watch_spec(
                old(store)@,
                path@,
                crate::watch_store::opt_seconds_view(expiration),
                t,
            ),
{
    let now = now_timestamp();
    crate::watch_store::upsert_watch_at(store, path, expiration, now);
}

/// Records a filesystem event on `path` with the clock as the observation
/// time: whatever time the clock read, the result is exactly an event upsert
/// at that time.
pub fn create_new_file(store: &mut FileStore, path: &String)
    requires
        old(store).wf(),
    ensures
        final(store).wf(),
        exists|t: int|
            final(store)@ == #[trigger] crate::file_store::upsert_event_spec(old(store)@, path@, t),
{
    let now = now_timestamp();
    crate::file_store::create_new_file_at(store, path, now);
}

/// Applies one event to the file store with the clock as the observation
/// time.
pub fn process_event(store: &mut FileStore, event: &FsEvent)
    requires
        old(store).wf(),
    ensures
        final(store).wf(),
        exists|t: int|
            final(store)@ == #[trigger] crate::event_processor::process_event_spec(
                old(store)@,
                event@,
                t,
            ),
{
    let now = now_timestamp();
    crate::event_processor::process_event_at(store, event, now);
}

/// One processor tick with the clock as the observation time: takes the
/// oldest buffered event, if any, and applies it to the file store.
pub fn process_next(queue: &mut EventQueue, store: &mut FileStore) -> (processed: bool)
    requires
        old(store).wf(),
    ensures
        final(store).wf(),
        old(queue)@.len() == 0 ==> !processed && final(queue)@ == old(queue)@ && final(store)@
            == old(store)@,
        old(queue)@.len() > 0 ==> processed && final(queue)@ == old(queue)@.subrange(
            1,
            old(queue)@.len() as int,
        ) && exists|t: int|
            final(store)@ == #[trigger] crate::event_processor::process_event_spec(
                old(store)@,
                old(queue)@[0],
                t,
            ),
{
    let now = now_timestamp();
    crate::event_processor::process_next_at(queue, store, now)
}

} // verus!
