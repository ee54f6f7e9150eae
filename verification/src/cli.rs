//! Decisions backing the command-line front end: the permission check on a
//! secret file's parent directory, and the detection of a version request.
//!
//! The front end reads the file system and the process arguments and hands
//! the plain values here.

use vstd::prelude::*;

verus! {

/// Why a parent directory fails the permission check.
#[derive(Clone, Copy, PartialEq, Eq, Structural, Debug)]
pub enum PermissionError {
    /// The path has no parent directory.
    MissingParent,
    /// The parent directory is readable by more than its owner.
    NotOwnerOnly,
}

/// The permission bits that make a directory readable only by its owner.
pub open spec fn spec_owner_only(mode: u32) -> bool {
    mode & 0o777 == 0o700
}

/// Checks the permissions of a path's parent directory, given as the
/// directory's mode bits, or nothing when the path has no parent: the
/// check passes exactly when the parent exists and is readable only by its
/// owner (mode 0700).
pub fn check_parent_permissions(parent_mode: Option<u32>) -> (r: Result<(), PermissionError>)
    ensures
        r == match parent_mode {
            None => Err::<(), PermissionError>(PermissionError::MissingParent),
            Some(mode) => if spec_owner_only(mode) {
                Ok::<(), PermissionError>(())
            } else {
                Err::<(), PermissionError>(PermissionError::NotOwnerOnly)
            },
        },
{
    match parent_mode {
        None => Err(PermissionError::MissingParent),
        Some(mode) => {
            if mode & 0o777 == 0o700 {
                Ok(())
            } else {
                Err(PermissionError::NotOwnerOnly)
            }
        },
    }
}

/// Whether a command-line argument asks for version information, in its
/// long or short form.
pub fn is_version_request(arg: &String) -> (r: bool)
    ensures
        r == (arg@ == "--version"@ || arg@ == "-V"@),
{
    let long: String = "--version".to_owned();
    let short: String = "-V".to_owned();
    arg.eq(&long) || arg.eq(&short)
}

} // verus!
