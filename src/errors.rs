//! The failures that the pipeline reports.
use vstd::prelude::*;

verus! {

/// A failure of the install pipeline, with a message for the user.
#[derive(Debug)]
pub enum PipelineError {
    /// Transport failure, a non-2xx response, DNS.
    NetworkError { message: String },
    /// A corrupted or unreadable tarball.
    UnzipError { message: String },
    /// File system, permission or symlink failure.
    IoError { message: String },
    /// Malformed JSON, range or version.
    ParseError { message: String },
    /// A tarball that could not be fetched.
    DownloadError { message: String },
    /// Unknown package, no version satisfying the range, or no tarball.
    NotFound { message: String },
    /// No manifest in the project directory.
    NoPackageJson,
}

impl PipelineError {
    /// The text shown to the user.
    pub fn message(&self) -> (r: String)
        ensures
            r@ == match self {
                PipelineError::NetworkError { message } => message@,
                PipelineError::UnzipError { message } => message@,
                PipelineError::IoError { message } => message@,
                PipelineError::ParseError { message } => message@,
                PipelineError::DownloadError { message } => message@,
                PipelineError::NotFound { message } => message@,
                PipelineError::NoPackageJson => "no package.json found"@,
            },
    {
        match self {
            PipelineError::NetworkError { message } => message.clone(),
            PipelineError::UnzipError { message } => message.clone(),
            PipelineError::IoError { message } => message.clone(),
            PipelineError::ParseError { message } => message.clone(),
            PipelineError::DownloadError { message } => message.clone(),
            PipelineError::NotFound { message } => message.clone(),
            PipelineError::NoPackageJson => String::from_str("no package.json found"),
        }
    }
}

} // verus!
