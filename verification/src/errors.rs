//! Errors of a gallery run.
//!
//! Metadata problems never surface here: an unreadable orientation tag
//! degrades to the identity rotation.  Every error below is fatal for the
//! whole run and names the offending file.

use vstd::prelude::*;
use vstd::string::StringExecFns;

verus! {

/// A fatal error of a gallery run, naming the file it arose on.
#[derive(Debug)]
pub enum GalleryError {
    /// The file name has no stem to derive output names from.
    InvalidFileName { name: String },
    /// The image bytes could not be decoded.
    DecodeFailed { name: String },
    /// The transformed image could not be re-encoded.
    EncodeFailed { name: String },
    /// An entry could not be appended to the download archive.
    ArchiveWrite { name: String },
}

impl GalleryError {
    /// The name of the file the error arose on.
    pub open spec fn spec_file_name(&self) -> Seq<char> {
        match self {
            GalleryError::InvalidFileName { name } => name@,
            GalleryError::DecodeFailed { name } => name@,
            GalleryError::EncodeFailed { name } => name@,
            GalleryError::ArchiveWrite { name } => name@,
        }
    }

    /// A diagnostic line: what failed, and on which file.
    pub fn message(&self) -> (r: String)
        ensures
            r@ == self.spec_message(),
    {
        let mut text = match self {
            GalleryError::InvalidFileName { name: _ } => "could not determine file stem for file ".to_owned(),
            GalleryError::DecodeFailed { name: _ } => "could not decode image ".to_owned(),
            GalleryError::EncodeFailed { name: _ } => "could not encode image ".to_owned(),
            GalleryError::ArchiveWrite { name: _ } => "could not write archive entry for ".to_owned(),
        };
        let name = match self {
            GalleryError::InvalidFileName { name } => name,
            GalleryError::DecodeFailed { name } => name,
            GalleryError::EncodeFailed { name } => name,
            GalleryError::ArchiveWrite { name } => name,
        };
        text.append(name.as_str());
        text
    }

    /// The text `message` returns: a fixed prefix for the error kind,
    /// followed by the file name.
    pub open spec fn spec_message(&self) -> Seq<char> {
        match self {
            GalleryError::InvalidFileName { name } => "could not determine file stem for file "@ + name@,
            GalleryError::DecodeFailed { name } => "could not decode image "@ + name@,
            GalleryError::EncodeFailed { name } => "could not encode image "@ + name@,
            GalleryError::ArchiveWrite { name } => "could not write archive entry for "@ + name@,
        }
    }
}

} // verus!
