//! A task list: named tasks with a completion flag, kept in a table keyed by
//! increasing ids, with the operations a command line offers on it.
pub mod command;
pub mod laws;
pub mod listing;
pub mod table;
pub mod text;
