use vstd::prelude::*;

use crate::process::ProcessResource;

verus! {

/// An open directory: the absolute, sandbox-checked path it stands for.
#[derive(Clone, Debug)]
pub struct DirHandleResource {
    pub path: String,
}

/// An open file: its absolute path and the backend's token for the open
/// descriptor.
#[derive(Debug)]
pub struct FileHandleResource {
    pub path: String,
    pub fd: u64,
}

/// Everything the resource table can own for one guest instantiation.
#[derive(Debug)]
pub enum ResourceEntry {
    Dir(DirHandleResource),
    File(FileHandleResource),
    Process(ProcessResource),
}

} // verus!
