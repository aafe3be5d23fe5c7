use vstd::prelude::*;

verus! {

/// The ways in which an operation of this crate can fail.
///
/// Callers match on the kind; no operation formats a message.
#[derive(Clone, Copy, Debug, PartialEq, Eq, Structural)]
pub enum CaptureError {
    /// The path of the source file has no extension from which a rule could be derived.
    ConfigurationError,
    /// The function looked for is not in the source, or no bookmark has the given name.
    NotFound,
    /// A bookmark with the same name, or with the same content, is already stored.
    AlreadyExists,
    /// The line interval is malformed, starts before line 1, or ends before it starts.
    InvalidInput,
    /// The source file or the bookmark storage could not be read or written.
    IoError,
    /// The session already holds an extracted snippet.
    AlreadyProduced,
}

} // verus!
