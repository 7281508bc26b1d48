//! The ways in which an upload, a download or a server-side request can fail.

use vstd::prelude::*;

verus! {

/// Why an operation was refused or given up.
#[derive(Debug, Clone, Copy, PartialEq, Eq, Structural)]
pub enum CdnError {
    /// A source or destination path has no usable shape.
    InvalidPath,
    /// The file system could not open, seek, read, write, stat or resize.
    IoError,
    /// A key does not carry the expected prefix or shape.
    MalformedKey,
    /// A metadata payload is wrongly tagged or cannot be decoded.
    MalformedMetadata,
    /// A query had no reply, or the requested artifact is not on disk.
    NotFound,
    /// A query that must have one reply had several.
    AmbiguousResult,
    /// A chunk lies beyond the end of the file it is read from or written to.
    ChunkOutOfRange,
}

} // verus!
