//! The library's one error kind.

use vstd::prelude::*;
use vstd::string::StringExecFns;

verus! {

/// A piece of input text that could not be read: the offending token and a
/// short human-readable reason.
#[derive(Debug)]
pub struct FormatError {
    pub token: String,
    pub reason: String,
}

impl FormatError {
    /// Build an error for `token` with the given reason.
    pub fn new(token: &str, reason: &str) -> (r: FormatError)
        ensures
            r.token@ == token@,
            r.reason@ == reason@,
    {
        FormatError { token: String::from_str(token), reason: String::from_str(reason) }
    }
}

} // verus!
