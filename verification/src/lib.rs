//! A small personal task tracker: tasks grouped under topics, held in an
//! in-memory store with uniqueness invariants, rendered to and parsed from a
//! JSON document, with a random-suggestion operation.
//!
//! The store is meant for one-shot use: a front end loads the document,
//! applies exactly one operation, and writes the document back. It is not
//! safe for concurrent access from several processes; the last write wins.

pub mod cli;
pub mod codec;
pub mod laws;
pub mod random;
pub mod task_object;
