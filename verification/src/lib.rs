//! Core of a filesystem-watching service: a persisted set of desired watches,
//! a persisted set of observed files with expiration bookkeeping, the
//! first-in-first-out buffer between the OS watcher and the event processor,
//! and the reconciler that converges live OS watch registrations toward the
//! desired set. Every operation states exactly what it does to the stores;
//! the surrounding process supplies the clock, the OS calls and the database.
pub mod clock;
pub mod dialog;
pub mod duration;
pub mod event_processor;
pub mod event_queue;
pub mod file_store;
pub mod file_watch;
pub mod form;
pub mod reconciler;
pub mod watch_store;
