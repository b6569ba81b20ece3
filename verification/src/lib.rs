//! Static photo gallery builder: turns a set of JPEG images into resized
//! full-size copies, thumbnails, an ordered gallery manifest and an optional
//! flat download archive.
//!
//! The crate holds the gallery logic: EXIF orientation handling, the
//! geometry of rotation and bounded resizing with a panorama exemption,
//! output filename derivation, the ordering of the item list, the shared
//! append-only archive, and the assembly of the render manifest.  File and
//! directory handling, template rendering and the command line stay with the
//! caller, which hands this crate file names and file bytes.

pub mod archive;
pub mod errors;
pub mod filenames;
pub mod order;
pub mod manifest;
pub mod orientation;
pub mod pipeline;
pub mod transform;
