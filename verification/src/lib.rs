//! Core of a personal planning application: an in-memory store of scheduled
//! tasks, daily goals and journal entries with upsert/CRUD semantics and a
//! reminder scheduler that fires at-most-once notifications at the exact
//! target minute. A thin shell persists the store to disk and delivers the
//! notifications; everything here is verified.
pub mod clock;
pub mod goals;
pub mod ids;
pub mod journal;
pub mod laws;
pub mod models;
pub mod scheduler;
pub mod store;
pub mod strings;
pub mod tasks;
