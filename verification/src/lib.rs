//! A verified todo-list core: an ordered list of todo records, the
//! line-oriented flat-file format that persists it, and the command
//! classifier and loop policy of the interactive dispatcher.
pub mod dispatch;
pub mod errors;
pub mod file_storage;
pub mod ids;
pub mod todo;
pub mod todos;
