//! Files served by the server: files built into the binary and files read
//! from a directory.
pub mod dynamic;
pub mod static_file;

use vstd::prelude::*;

verus! {

/// The outcome of editing a file: not editable, the new content, or why it failed.
pub enum EditResult {
    NotEditable,
    Success(Vec<u8>),
    Failed(String),
}

} // verus!
