//! The archiver: the output root and what is read from a recording's name.

use std::path::PathBuf;
use vstd::prelude::*;
use crate::error::ArchiveError;
use crate::timestamp::{capture_from_name, capture_of, CaptureTimestamp};

verus! {

/// std's `PathBuf`. A path is carried through and never looked into.
#[verifier::external_type_specification]
#[verifier::external_body]
pub struct ExPathBuf(PathBuf);

/// Archives recordings below one output root.
pub struct LivestreamArchiver {
    output_path: PathBuf,
}

impl View for LivestreamArchiver {
    type V = PathBuf;

    closed spec fn view(&self) -> PathBuf {
        self.output_path
    }
}

impl LivestreamArchiver {
    /// An archiver that files its copies below `output_path`.
    pub fn new(output_path: PathBuf) -> (archiver: Self)
        ensures
            archiver@ == output_path,
    {
        LivestreamArchiver { output_path }
    }

    /// The output root.
    pub fn get_output_path(&self) -> (path: &PathBuf)
        ensures
            *path == self@,
    {
        &self.output_path
    }

    /// Reads the capture time from the file name of a recording, such as
    /// `2024-12-27_18-42-36.mp4`. Any other name is a format error, one that
    /// writes its seconds as `60` too.
    pub fn extract_date_from_filename(
        &self,
        filename: &str,
    ) -> (r: Result<CaptureTimestamp, ArchiveError>)
        ensures
            r matches Ok(ts) ==> capture_of(filename@) == Some(ts@),
            r matches Err(e) ==> e == ArchiveError::Format && capture_of(filename@) is None,
    {
        capture_from_name(filename)
    }
}

} // verus!
