//! Changes as a watch source reports them.

use vstd::prelude::*;
use crate::entries::FileId;

verus! {

/// What happened to a file.
#[derive(Debug, Clone, Copy, PartialEq, Eq, Structural)]
pub enum ChangeKind {
    Created,
    Modified,
    Renamed,
    Deleted,
}

/// One change to one file.
#[derive(Debug, Clone, Copy, PartialEq, Eq, Structural)]
pub struct FileDelta {
    pub file_id: FileId,
    pub kind: ChangeKind,
}

/// A producer of changes, one at a time.
pub trait WatchSource {
    fn next_delta(&mut self) -> Option<FileDelta>;
}

} // verus!
