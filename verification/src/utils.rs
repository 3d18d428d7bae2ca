//! Small data structures shared by the server.
pub mod cache;
