use vstd::prelude::*;

verus! {

/// What can go wrong while an archive is read.
#[derive(Debug, Clone, Copy, PartialEq, Eq, Structural)]
pub enum CbzError {
    /// Reading an entry's bytes failed.
    Io,
    /// The archive is no well-formed zip file, or has no such entry.
    Zip,
    /// The data is too short to tell an image format.
    InvalidImageFormat,
    /// No entry of the name asked for.
    NotFound,
}

impl CbzError {
    /// A one-line description of the error.
    pub fn message(&self) -> (text: &'static str)
        ensures
            text@ == match self {
                CbzError::Io => "IO error"@,
                CbzError::Zip => "Zip error"@,
                CbzError::InvalidImageFormat => "Invalid image format"@,
                CbzError::NotFound => "Entry not found"@,
            },
    {
        match self {
            CbzError::Io => "IO error",
            CbzError::Zip => "Zip error",
            CbzError::InvalidImageFormat => "Invalid image format",
            CbzError::NotFound => "Entry not found",
        }
    }
}

} // verus!
