//! The error taxonomy of the proxy, and the mapping between the tool layer's
//! errors and the request-level ones.

use vstd::prelude::*;

verus! {

/// What the external metadata tool produced: its exit condition and its
/// captured output, as plain values.
#[derive(Debug, Clone, PartialEq)]
pub struct ToolOutput {
    /// Whether the process exited with status zero.
    pub success: bool,
    /// The exit code, when the process exited normally.
    pub code: Option<i32>,
    /// Captured standard output, decoded as text.
    pub stdout: String,
    /// Captured standard error, decoded as text.
    pub stderr: String,
}

/// Failures of the external metadata tool layer.
#[derive(Debug, Clone, PartialEq)]
pub enum YtDlError {
    /// The tool's binary could not be executed at all.
    YtDlpNotFound,
    /// The requested channel or video does not exist upstream.
    ItemNotFound,
    /// The tool ran and exited with a non-zero status; carries its output.
    YtDlpOutputError(ToolOutput),
    /// Any other failure, with a diagnostic message.
    Other(String),
}

/// Failures surfaced by the proxy's request-level operations.
#[derive(Debug, Clone, PartialEq)]
pub enum PodcastError {
    /// The requested channel or video does not exist.
    NotFound,
    /// A tool failure other than a plain "not found".
    YoutubeError(YtDlError),
    /// A filesystem failure, with a diagnostic message.
    IoError(String),
    /// Any other failure, with a diagnostic message.
    Other(String),
}

/// How a tool-layer error surfaces to a request: a "not found" stays a plain
/// not-found, anything else is wrapped as a tool failure.
pub open spec fn podcast_error_spec(e: YtDlError) -> PodcastError {
    match e {
        YtDlError::ItemNotFound => PodcastError::NotFound,
        _ => PodcastError::YoutubeError(e),
    }
}

/// Maps a tool-layer error to the request-level taxonomy.
pub fn podcast_error_of(e: YtDlError) -> (r: PodcastError)
    ensures
        r == podcast_error_spec(e),
{
    match e {
        YtDlError::ItemNotFound => PodcastError::NotFound,
        other => PodcastError::YoutubeError(other),
    }
}

} // verus!
