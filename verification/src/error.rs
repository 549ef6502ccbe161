use vstd::prelude::*;

verus! {

/// Errors of the conversion core.
///
/// I/O failures and codec failures of the surrounding shell are outside this
/// library; the shell wraps this type together with its own error sources.
#[derive(Debug)]
pub enum Error {
    /// The requested output format version is not supported.
    InvalidLasVersion(String),
    /// An internal pipeline failure (for the shell: a worker or writer that
    /// ended without reporting a result).
    Internal(String),
}

} // verus!
