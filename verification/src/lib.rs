//! A minimal in-memory to-do list.
//!
//! A [`task::Task`] is a record with a generated 128-bit identifier, a
//! description, and a completion flag. A [`store::TodoList`] owns an ordered
//! sequence of such records and is the sole authority for identifier
//! assignment and completion-state transitions: tasks are created only through
//! its add operations, are never removed, and only their completion flag ever
//! changes. The store keeps identifiers unique among its tasks.
//!
//! The store is meant for exclusive, single-threaded ownership; concurrent
//! mutation is unsupported and would need external synchronization around the
//! whole store.

pub mod laws;
pub mod store;
pub mod task;
