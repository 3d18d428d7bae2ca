//! Files served from a directory on disk.
use std::path::PathBuf;
use vstd::prelude::*;

verus! {

#[verifier::external_type_specification]
#[verifier::external_body]
pub struct ExPathBuf(std::path::PathBuf);

/// Files served from a directory: whether they may be edited, and the size
/// up to which a file is kept in memory.
pub struct DynamicFiles {
    pub root_directory: PathBuf,
    pub editable: bool,
    pub cache_size_limit: u64,
}

} // verus!
