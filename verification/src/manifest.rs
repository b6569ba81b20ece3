//! Gallery items and the render manifest.
//!
//! A gallery item is the pair of public-facing output names of one source
//! image.  The manifest is the aggregate handed to the external templating
//! collaborator: title, version marker, generation timestamp, optional
//! download archive name and size, and the ordered item list.

use vstd::prelude::*;
use vstd::string::StringExecFns;
use crate::errors::GalleryError;
use crate::filenames::thumbnail_name;
use crate::filenames::thumbnail_name_of;

verus! {

/// The two public-facing output names of one source image.
#[derive(Debug)]
pub struct GalleryItem {
    /// The full-size output: the original file name, unchanged.
    pub filename_full: String,
    /// The thumbnail output: `{stem}.thumb.jpg`.
    pub filename_thumb: String,
}

impl GalleryItem {
    /// An identical copy of the item.
    pub fn duplicate(&self) -> (r: GalleryItem)
        ensures
            r == *self,
    {
        GalleryItem {
            filename_full: self.filename_full.clone(),
            filename_thumb: self.filename_thumb.clone(),
        }
    }
}

/// Derive the output names for one source file name.  Fails only when the
/// name is empty — a file with no nameable stem is a configuration error,
/// fatal for the run.
pub fn build_item(name: &str) -> (r: Result<GalleryItem, GalleryError>)
    ensures
        name@.len() > 0 ==> (r matches Ok(item) && item.filename_full@ == name@
            && item.filename_thumb@ == thumbnail_name_of(name@)),
        name@.len() == 0 ==> (r matches Err(e) && e matches GalleryError::InvalidFileName {
            name: n,
        } && n@ == name@),
{
    if name.unicode_len() == 0 {
        return Err(GalleryError::InvalidFileName { name: name.to_owned() });
    }
    let thumb = thumbnail_name(name);
    Ok(GalleryItem { filename_full: name.to_owned(), filename_thumb: thumb })
}

/// The size of the download archive in whole mebibytes, rounded up.
pub open spec fn mib_ceil(bytes: u64) -> int {
    (bytes + 0xfffff) / 0x100000
}

/// Round a byte count up to whole mebibytes.
pub fn download_size_mib(bytes: u64) -> (r: u64)
    ensures
        r == mib_ceil(bytes),
{
    let whole = bytes / 0x100000;
    let rest = bytes % 0x100000;
    if rest == 0 {
        whole
    } else {
        whole + 1
    }
}

/// The aggregate handed to the external templating collaborator.
pub struct GalleryManifest {
    pub title: String,
    pub version: String,
    pub isodate: String,
    pub download_filename: Option<String>,
    pub download_filesize_mib: Option<u64>,
    pub images: Vec<GalleryItem>,
}

/// Pure construction of the render manifest.  The caller supplies the run
/// metadata — title, version marker, ISO-8601 timestamp — the optional
/// download archive (name and size in bytes), and the ordered item list.
pub fn assemble_manifest(
    title: String,
    version: String,
    isodate: String,
    download: Option<(String, u64)>,
    images: Vec<GalleryItem>,
) -> (m: GalleryManifest)
    ensures
        m.title == title,
        m.version == version,
        m.isodate == isodate,
        m.images == images,
        download matches Some(d) ==> (m.download_filename == Some(d.0) && (
        m.download_filesize_mib matches Some(s) && s == mib_ceil(d.1))),
        download is None ==> m.download_filename is None && m.download_filesize_mib is None,
{
    match download {
        Some((name, bytes)) => {
            let mib = download_size_mib(bytes);
            GalleryManifest {
                title,
                version,
                isodate,
                download_filename: Some(name),
                download_filesize_mib: Some(mib),
                images,
            }
        },
        None => GalleryManifest {
            title,
            version,
            isodate,
            download_filename: None,
            download_filesize_mib: None,
            images,
        },
    }
}

} // verus!
