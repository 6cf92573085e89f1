//! The error taxonomy of the pipeline. Every failure is terminal at the point
//! of first occurrence; each variant carries enough context (sol, index) for
//! an actionable message.

use vstd::prelude::*;

verus! {

/// One fatal failure of the pipeline.
#[derive(Debug, PartialEq, Eq)]
pub enum PipelineError {
    /// The remote service could not be reached or the transport failed.
    RemoteUnavailable,
    /// The remote answer did not have the expected JSON shape or types.
    MalformedResponse,
    /// The requested sol exists as a request but the service has no data for it.
    SolNotFound { sol: i64 },
    /// The download of the image at `index` failed; the whole batch is abandoned.
    PartialDownloadFailure { index: usize },
    /// The image at `index` could not be decoded; a partial GIF is not emitted.
    FrameDecodeFailure { index: usize },
    /// The encoder itself failed.
    EncodeFailure,
    /// The output file could not be written.
    IOFailure,
}

impl PipelineError {
    /// A short stable label for the variant, for user-facing messages.
    pub fn label(&self) -> (r: &'static str)
        ensures
            r@ == self.label_spec(),
    {
        match self {
            PipelineError::RemoteUnavailable => "remote service unavailable",
            PipelineError::MalformedResponse => "malformed remote response",
            PipelineError::SolNotFound { .. } => "no data for the requested sol",
            PipelineError::PartialDownloadFailure { .. } => "an image download failed",
            PipelineError::FrameDecodeFailure { .. } => "an image could not be decoded",
            PipelineError::EncodeFailure => "the GIF encoder failed",
            PipelineError::IOFailure => "the output file could not be written",
        }
    }

    /// What `label` returns for each variant.
    pub open spec fn label_spec(&self) -> Seq<char> {
        match self {
            PipelineError::RemoteUnavailable => "remote service unavailable"@,
            PipelineError::MalformedResponse => "malformed remote response"@,
            PipelineError::SolNotFound { .. } => "no data for the requested sol"@,
            PipelineError::PartialDownloadFailure { .. } => "an image download failed"@,
            PipelineError::FrameDecodeFailure { .. } => "an image could not be decoded"@,
            PipelineError::EncodeFailure => "the GIF encoder failed"@,
            PipelineError::IOFailure => "the output file could not be written"@,
        }
    }
}

} // verus!
