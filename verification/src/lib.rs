//! An in-memory task list: tasks with a name, a description, a priority and a
//! creation timestamp, kept in insertion order, with lookup by name, and a
//! canonical JSON text for persistence that is proved to round-trip.

pub mod codec;
pub mod console;
pub mod store;
pub mod task;
pub mod text;
