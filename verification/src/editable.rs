//! The outcome of editing a service's content.
use vstd::prelude::*;

verus! {

/// The outcome of editing a service's value: not editable, the new value,
/// or why it failed.
pub enum EditResult {
    NotEditable,
    Success(Vec<u8>),
    Failed(String),
}

} // verus!
