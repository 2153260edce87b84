//! What the core asks of the desktop shell.

use vstd::prelude::*;
use vstd::string::*;

verus! {

/// Why a shell action could not be carried out.
#[derive(Debug, Clone, Copy, PartialEq, Eq, Structural)]
pub enum ShellError {
    NotImplemented,
}

impl ShellError {
    /// The text shown for the error.
    pub fn message(&self) -> (r: String)
        ensures
            r@ == "not implemented"@,
    {
        match self {
            ShellError::NotImplemented => String::from_str("not implemented"),
        }
    }
}

/// Opening a file and showing it in the file manager.
pub trait ShellActions {
    fn open_path(&self, full_path: &str) -> Result<(), ShellError>;

    fn reveal_path(&self, full_path: &str) -> Result<(), ShellError>;
}

} // verus!
