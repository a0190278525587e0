//! Why a file was not archived.

use vstd::prelude::*;

verus! {

/// A failure that ends the run of one file. The process goes on with the
/// next file.
#[derive(Clone, Copy, Debug, PartialEq, Eq, Structural)]
pub enum ArchiveError {
    /// The file name does not carry a capture time.
    Format,
    /// Reading, writing or creating something on disk failed.
    Io,
    /// The file kept changing for the whole observation window.
    Timeout,
    /// The encoder reported failure.
    Transcode,
}

/// Why an incoming file is passed over without being an error.
#[derive(Clone, Copy, Debug, PartialEq, Eq, Structural)]
pub enum SkipReason {
    /// The file is not a recording of the accepted type.
    WrongExtension,
    /// The same file was archived earlier in this process.
    AlreadyProcessed,
}

impl ArchiveError {
    /// What is logged of this failure.
    pub open spec fn message_text(self) -> Seq<char> {
        match self {
            ArchiveError::Format => "file name does not carry a capture time"@,
            ArchiveError::Io => "reading or writing on disk failed"@,
            ArchiveError::Timeout => "file did not come to rest within four hours"@,
            ArchiveError::Transcode => "encoder reported failure"@,
        }
    }

    /// What is logged of this failure.
    pub fn message(self) -> (r: &'static str)
        ensures
            r@ == self.message_text(),
    {
        match self {
            ArchiveError::Format => "file name does not carry a capture time",
            ArchiveError::Io => "reading or writing on disk failed",
            ArchiveError::Timeout => "file did not come to rest within four hours",
            ArchiveError::Transcode => "encoder reported failure",
        }
    }
}

impl SkipReason {
    /// What is logged of a file that is passed over.
    pub open spec fn message_text(self) -> Seq<char> {
        match self {
            SkipReason::WrongExtension => "not a recording of the accepted type"@,
            SkipReason::AlreadyProcessed => "already archived"@,
        }
    }

    /// What is logged of a file that is passed over.
    pub fn message(self) -> (r: &'static str)
        ensures
            r@ == self.message_text(),
    {
        match self {
            SkipReason::WrongExtension => "not a recording of the accepted type",
            SkipReason::AlreadyProcessed => "already archived",
        }
    }
}

} // verus!
