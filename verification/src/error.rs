//! Why a listing or an extraction did not go through.

use vstd::prelude::*;

verus! {

/// A failure of a listing or an extraction. Each kind has one message; what a
/// codec or the file system reported is carried as its text.
#[derive(Clone, Debug, PartialEq, Eq)]
pub enum ArchiveError {
    /// The archive's path names no existing file.
    NotFound,
    /// The path names no format that can be extracted.
    UnsupportedFormat,
    /// The path names no format that holds several entries.
    UnsupportedListing,
    /// The archive's path has no file name to take the output's name from.
    InvalidFilename,
    /// The archive's path has nothing above it.
    NoParentDirectory,
    /// The archive's path has no stem to name a directory after.
    NoFileStem,
    /// A codec refused the archive.
    Codec { message: String },
    /// The file system refused an operation.
    Io { message: String },
}

/// An `ArchiveError` with its text as a sequence of characters.
pub enum ErrorView {
    NotFound,
    UnsupportedFormat,
    UnsupportedListing,
    InvalidFilename,
    NoParentDirectory,
    NoFileStem,
    Codec { message: Seq<char> },
    Io { message: Seq<char> },
}

impl ErrorView {
    /// The message that a caller is shown.
    pub open spec fn text(self) -> Seq<char> {
        match self {
            ErrorView::NotFound => "Archive file does not exist"@,
            ErrorView::UnsupportedFormat => "Unsupported archive format"@,
            ErrorView::UnsupportedListing => "Unsupported archive format for listing"@,
            ErrorView::InvalidFilename => "Invalid filename"@,
            ErrorView::NoParentDirectory =>
                "Invalid archive path: Unable to determine parent directory"@,
            ErrorView::NoFileStem => "Invalid filename: Unable to extract file stem"@,
            ErrorView::Codec { message } => message,
            ErrorView::Io { message } => message,
        }
    }
}

impl View for ArchiveError {
    type V = ErrorView;

    open spec fn view(&self) -> ErrorView {
        match self {
            ArchiveError::NotFound => ErrorView::NotFound,
            ArchiveError::UnsupportedFormat => ErrorView::UnsupportedFormat,
            ArchiveError::UnsupportedListing => ErrorView::UnsupportedListing,
            ArchiveError::InvalidFilename => ErrorView::InvalidFilename,
            ArchiveError::NoParentDirectory => ErrorView::NoParentDirectory,
            ArchiveError::NoFileStem => ErrorView::NoFileStem,
            ArchiveError::Codec { message } => ErrorView::Codec { message: message@ },
            ArchiveError::Io { message } => ErrorView::Io { message: message@ },
        }
    }
}

impl ArchiveError {
    /// The message that a caller is shown.
    pub fn message(&self) -> (text: String)
        ensures
            text@ == self@.text(),
    {
        match self {
            ArchiveError::NotFound => "Archive file does not exist".to_owned(),
            ArchiveError::UnsupportedFormat => "Unsupported archive format".to_owned(),
            ArchiveError::UnsupportedListing =>
                "Unsupported archive format for listing".to_owned(),
            ArchiveError::InvalidFilename => "Invalid filename".to_owned(),
            ArchiveError::NoParentDirectory =>
                "Invalid archive path: Unable to determine parent directory".to_owned(),
            ArchiveError::NoFileStem => "Invalid filename: Unable to extract file stem".to_owned(),
            ArchiveError::Codec { message } => message.clone(),
            ArchiveError::Io { message } => message.clone(),
        }
    }
}

} // verus!
