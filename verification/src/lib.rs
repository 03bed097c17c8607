//! Core of an interactive query terminal: a line editor with history, a table
//! renderer for query results, and the key handling that ties them together.

pub mod args;
pub mod editor;
pub mod http;
pub mod json;
pub mod projects;
pub mod response;
pub mod self_update;
pub mod session;
pub mod table;
pub mod text;
pub mod ui;
pub mod utf8;
