//! A store of short text prompts (title, content, tags) kept in an embedded
//! SQLite database: listing in a fixed order, search, insert, update, delete,
//! marking as used, and reordering in one transaction.
//!
//! - `text`: splitting a tags text at white space.
//! - `time`: instants in UTC and how stored timestamp texts are read.
//! - `prompt`: the prompt types and the listing order.
//! - `sql`: the engine connection and the calls into it.
//! - `store`: reading rows back, and the store's operations.

pub mod prompt;
pub mod sql;
pub mod store;
pub mod text;
pub mod time;
