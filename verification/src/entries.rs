//! The record types that an index source hands to the core.

use vstd::prelude::*;
use vstd::string::*;

verus! {

pub type FileId = u32;

pub type PathId = u32;

/// One file as an index source reports it: its lower-cased name and
/// extension, the directory it lies in, its size, time and attributes.
#[derive(Debug)]
pub struct FileEntry {
    pub id: FileId,
    pub name_lc: String,
    pub ext_lc: String,
    pub parent_path_id: PathId,
    pub size: u64,
    pub mtime_unix_ms: i64,
    pub attrs: u32,
}

impl Clone for FileEntry {
    fn clone(&self) -> (r: Self)
        ensures
            r.id == self.id,
            r.name_lc@ == self.name_lc@,
            r.ext_lc@ == self.ext_lc@,
            r.parent_path_id == self.parent_path_id,
            r.size == self.size,
            r.mtime_unix_ms == self.mtime_unix_ms,
            r.attrs == self.attrs,
    {
        FileEntry {
            id: self.id,
            name_lc: self.name_lc.clone(),
            ext_lc: self.ext_lc.clone(),
            parent_path_id: self.parent_path_id,
            size: self.size,
            mtime_unix_ms: self.mtime_unix_ms,
            attrs: self.attrs,
        }
    }
}

/// The directories that file entries refer to by number.
#[derive(Debug)]
pub struct PathTable {
    pub paths: Vec<String>,
}

impl Default for PathTable {
    fn default() -> (r: Self)
        ensures
            r.paths@.len() == 0,
    {
        PathTable { paths: Vec::new() }
    }
}

/// Why an index source could not deliver.
#[derive(Debug, Clone, Copy, PartialEq, Eq, Structural)]
pub enum IndexError {
    NotImplemented,
}

impl IndexError {
    /// The text shown for the error.
    pub fn message(&self) -> (r: String)
        ensures
            r@ == "not implemented"@,
    {
        match self {
            IndexError::NotImplemented => String::from_str("not implemented"),
        }
    }
}

/// A producer of the initial list of files.
pub trait IndexSource {
    fn build_initial_index(&self) -> Result<Vec<FileEntry>, IndexError>;
}

} // verus!
