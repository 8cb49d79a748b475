//! The error taxonomy of the attachment engine.

use vstd::prelude::*;

verus! {

/// Every failure an attachment operation can report.
///
/// `MimeRejected` and `TooLarge` reject the caller's input before any state
/// is touched.  `Traversal` marks an identifier that would escape the sandbox
/// root.  `NotFound` is a missing blob, `RecordNotFound` its catalog mirror.
/// `IOFailure` is an operating-system level failure reported by the caller's
/// persistence layer, and `CompressionFailed` / `DecompressionFailed` come
/// from the codec.
#[derive(Clone, Copy, Debug, PartialEq, Eq, Structural)]
pub enum AttachmentError {
    MimeRejected,
    TooLarge,
    Traversal,
    NotFound,
    IOFailure,
    CompressionFailed,
    DecompressionFailed,
    RecordNotFound,
}

} // verus!
