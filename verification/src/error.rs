//! The ways an upload can end other than in success.

use vstd::prelude::*;

verus! {

/// Why an upload did not complete.
#[derive(Clone, Copy, Debug, PartialEq, Eq, Structural)]
pub enum UploadError {
    /// The session is no longer valid; the caller has to authenticate again.
    AuthExpired,
    /// The configured line name is none of the known ones.
    UnknownLine,
    /// Every probed endpoint failed to answer.
    NoEndpointAvailable,
    /// The endpoint refused the negotiation.
    EndpointRejected,
    /// The chunk starting at `offset` failed on every attempt it was allowed.
    ChunkUploadFailed { offset: u64 },
    /// All chunks arrived but the endpoint did not assemble them.
    FinalizeFailed,
    /// The user stopped the upload.
    UploadCancelled,
    /// The file could not be opened or read.
    IoError,
}

impl UploadError {
    /// A cancellation is reported through the error channel but was asked for
    /// by the user, so a caller should not present it as a failure.
    pub open spec fn cancelled(self) -> bool {
        self is UploadCancelled
    }

    /// Whether this outcome is the user's own cancellation.
    pub fn is_cancelled(&self) -> (b: bool)
        ensures
            b == self.cancelled(),
    {
        match self {
            UploadError::UploadCancelled => true,
            _ => false,
        }
    }
}

} // verus!
