//! Local auth check: a caller-supplied token is compared byte-for-byte
//! against the content of a small local secret file.
//!
//! The application probes the file (existence, kind, size, readability)
//! and hands the observation in; the decision never fails outward — every
//! precondition violation is simply a `false`.

use vstd::prelude::*;

verus! {

/// The size cap on the secret file, in bytes: larger files are rejected
/// as a defensive measure, whatever they hold.
pub const AUTH_FILE_MAX_BYTES: u64 = 1000;

/// What the application observed of the secret file.
pub enum FileProbe {
    /// No file at the given path.
    Missing,
    /// The path exists but is not a regular file.
    NotRegular,
    /// A regular file of `size` bytes; `content` is its text, or `None`
    /// when it could not be read as text (or was not read at all).
    Sized { size: u64, content: Option<String> },
}

/// When the check accepts: the probe found a regular file within the size
/// cap whose text equals the token exactly — no trimming, no case
/// folding.
pub open spec fn auth_accepts(probe: FileProbe, token: Seq<char>) -> bool {
    match probe {
        FileProbe::Sized { size, content } => {
            &&& size <= AUTH_FILE_MAX_BYTES
            &&& content matches Some(c) && c@ == token
        },
        _ => false,
    }
}

/// Compares the probed secret file against the caller's token.  Returns
/// `true` exactly when the file is a regular file of at most
/// `AUTH_FILE_MAX_BYTES` bytes whose text equals the token.
pub fn check_auth_core(probe: &FileProbe, token: &String) -> (r: bool)
    ensures
        r == auth_accepts(*probe, token@),
{
    match probe {
        FileProbe::Missing => false,
        FileProbe::NotRegular => false,
        FileProbe::Sized { size, content } => {
            if *size > AUTH_FILE_MAX_BYTES {
                return false;
            }
            match content {
                None => false,
                Some(c) => *c == *token,
            }
        },
    }
}

} // verus!
