//! Error values of the tool and the record kept for each processed file.

use vstd::prelude::*;

verus! {

/// The ways in which processing can fail. Paths and messages are carried as
/// text; `IoError` carries the text of the underlying I/O error.
#[derive(Debug, Clone)]
pub enum CortinizerError {
    /// I/O error
    IoError(String),
    /// FFmpeg-related error
    FfmpegError(String),
    /// Unsupported audio format
    UnsupportedFormat(String),
    /// Invalid audio file
    InvalidAudioFile { path: String },
    /// FFprobe failed to get duration
    DurationError { path: String },
    /// Metadata copy error
    MetadataError(String),
    /// Configuration error
    ConfigError(String),
}

/// The text an error is displayed as.
pub open spec fn error_text(e: CortinizerError) -> Seq<char> {
    match e {
        CortinizerError::IoError(m) => "I/O error: "@ + m@,
        CortinizerError::FfmpegError(m) => "FFmpeg error: "@ + m@,
        CortinizerError::UnsupportedFormat(m) => "Unsupported audio format: "@ + m@,
        CortinizerError::InvalidAudioFile { path } => "Invalid audio file: "@ + path@,
        CortinizerError::DurationError { path } => "Failed to get audio duration for: "@ + path@,
        CortinizerError::MetadataError(m) => "Failed to copy metadata: "@ + m@,
        CortinizerError::ConfigError(m) => "Configuration error: "@ + m@,
    }
}

impl CortinizerError {
    /// The text this error is displayed as.
    pub fn to_display_string(&self) -> (text: String)
        ensures
            text@ == error_text(*self),
    {
        let (prefix, detail) = match self {
            CortinizerError::IoError(m) => ("I/O error: ", m),
            CortinizerError::FfmpegError(m) => ("FFmpeg error: ", m),
            CortinizerError::UnsupportedFormat(m) => ("Unsupported audio format: ", m),
            CortinizerError::InvalidAudioFile { path } => ("Invalid audio file: ", path),
            CortinizerError::DurationError { path } => ("Failed to get audio duration for: ", path),
            CortinizerError::MetadataError(m) => ("Failed to copy metadata: ", m),
            CortinizerError::ConfigError(m) => ("Configuration error: ", m),
        };
        let mut text = String::from_str(prefix);
        text.append(detail.as_str());
        text
    }
}

/// Status of file processing
#[derive(Debug, Clone, PartialEq)]
pub enum ProcessStatus {
    /// File processed successfully
    Success,
    /// File processing failed
    Failed(String),
}

/// Result of processing a single file
#[derive(Debug, Clone)]
pub struct ProcessResult {
    /// Input file path
    pub input_path: String,
    /// Output file path
    pub output_path: Option<String>,
    /// Processing status
    pub status: ProcessStatus,
}

impl ProcessResult {
    /// Whether this record is that of a successful run.
    pub open spec fn succeeded(&self) -> bool {
        self.status is Success
    }

    /// Whether this record is that of a failure with the given message.
    pub open spec fn failed_with(&self, message: Seq<char>) -> bool {
        self.status matches ProcessStatus::Failed(m) && m@ == message
    }

    /// Create a new successful result
    pub fn success(input_path: String, output_path: String) -> (r: ProcessResult)
        ensures
            r.input_path == input_path,
            r.output_path == Some(output_path),
            r.status == ProcessStatus::Success,
            r.succeeded(),
    {
        ProcessResult { input_path, output_path: Some(output_path), status: ProcessStatus::Success }
    }

    /// Create a new failed result
    pub fn failed(input_path: String, error: String) -> (r: ProcessResult)
        ensures
            r.input_path == input_path,
            r.output_path is None,
            r.status == ProcessStatus::Failed(error),
            !r.succeeded(),
    {
        ProcessResult { input_path, output_path: None, status: ProcessStatus::Failed(error) }
    }

    /// Check if the processing was successful
    pub fn is_success(&self) -> (b: bool)
        ensures
            b == self.succeeded(),
    {
        matches!(self.status, ProcessStatus::Success)
    }
}

} // verus!
