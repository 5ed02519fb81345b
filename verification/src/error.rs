//! The ways in which reading a profile file can fail.

use vstd::prelude::*;

verus! {

/// Why no credentials, or no configuration path, could be had.
#[derive(Clone, Copy, Debug, PartialEq, Eq, Structural)]
pub enum CredentialsError {
    /// The path could not be examined: nothing is there, or access is denied.
    NotFound,
    /// The path leads to something that is not a regular file.
    NotAFile,
    /// The file was read and holds no complete profile.
    NoCredentialsFound,
    /// The user's home directory could not be determined.
    NoHomeDirectory,
}

} // verus!
