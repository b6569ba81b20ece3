//! Image transformation: decode, corrective rotation, bounded resize with a
//! panorama exemption, and JPEG re-encoding.
//!
//! Pixel data lives in an opaque decoded buffer; the geometry — the pixel
//! width and height — is carried beside it and is what the gallery's
//! decisions read.  An image is a panorama when its width is more than twice
//! its height; a panorama is exempted from rotation and resizing when the
//! caller asks for it, so that its long side is not clipped to the short
//! bound.

use vstd::prelude::*;
use crate::errors::GalleryError;
use crate::orientation::Orientation;
use image::GenericImageView;

verus! {

#[verifier::external_type_specification]
#[verifier::external_body]
pub struct ExDynamicImage(image::DynamicImage);

#[verifier::external_type_specification]
#[verifier::external_body]
pub struct ExImageError(image::ImageError);

/// A decoded image: the opaque pixel buffer and its geometry.  The fields
/// are private so that every `Picture` in circulation carries the true
/// dimensions of its buffer: values are made only by the decoding, rotation
/// and resizing operations below, each of which keeps the pair in step with
/// the pixels.
pub struct Picture {
    img: image::DynamicImage,
    width: u32,
    height: u32,
}

impl Picture {
    /// The pixel width of the decoded image.
    pub closed spec fn spec_width(self) -> u32 {
        self.width
    }

    /// The pixel height of the decoded image.
    pub closed spec fn spec_height(self) -> u32 {
        self.height
    }

    /// Read the pixel width.
    pub fn width(&self) -> (r: u32)
        ensures
            r == self.spec_width(),
    {
        self.width
    }

    /// Read the pixel height.
    pub fn height(&self) -> (r: u32)
        ensures
            r == self.spec_height(),
    {
        self.height
    }
}

/// The pixel dimensions of the image encoded in these bytes, or `None` when
/// they do not decode.  Decoding is a function of the bytes alone.
pub uninterp spec fn decoded_dims_of(bytes: Seq<u8>) -> Option<(u32, u32)>;

/// The dimensions the resize kernel picks for an image of the given size
/// fitted into the given bounding box: aspect-preserving, a function of the
/// four arguments alone.
pub uninterp spec fn resized_dims_of(w: u32, h: u32, max_w: u32, max_h: u32) -> (u32, u32);

/// Whether a decoded pixel buffer of this geometry surely fits the reader's
/// default allocation bound of 512 MiB: the images this crate encodes carry
/// at most three bytes per pixel.  Beyond that bound the reader refuses to
/// decode, by policy, not by memory.
pub open spec fn fits_decode_limit(w: u32, h: u32) -> bool {
    3 * w * h <= 0x20000000
}

/// Relies on `image::load_from_memory`: decodes an in-memory buffer, a
/// function of the bytes alone, and on `image::DynamicImage::dimensions`
/// for the decoded geometry.
#[verifier::external_body]
fn decode_picture(bytes: &[u8]) -> (r: Result<Picture, image::ImageError>)
    ensures
        r is Ok <==> decoded_dims_of(bytes@) is Some,
        r matches Ok(p) ==> Some((p.spec_width(), p.spec_height())) == decoded_dims_of(bytes@),
{
    let img = image::load_from_memory(bytes)?;
    let (width, height) = img.dimensions();
    Ok(Picture { img, width, height })
}

/// Relies on `image::DynamicImage::clone`: an identical copy, geometry
/// included.
#[verifier::external_body]
fn clone_picture(p: &Picture) -> (r: Picture)
    ensures
        r.spec_width() == p.spec_width(),
        r.spec_height() == p.spec_height(),
{
    Picture { img: p.img.clone(), width: p.width, height: p.height }
}

/// Relies on `image::DynamicImage::rotate90`: a quarter turn clockwise,
/// which swaps width and height.
#[verifier::external_body]
fn rotate90_picture(p: &Picture) -> (r: Picture)
    ensures
        r.spec_width() == p.spec_height(),
        r.spec_height() == p.spec_width(),
{
    Picture { img: p.img.rotate90(), width: p.height, height: p.width }
}

/// Relies on `image::DynamicImage::rotate180`: a half turn, which keeps the
/// geometry.
#[verifier::external_body]
fn rotate180_picture(p: &Picture) -> (r: Picture)
    ensures
        r.spec_width() == p.spec_width(),
        r.spec_height() == p.spec_height(),
{
    Picture { img: p.img.rotate180(), width: p.width, height: p.height }
}

/// Relies on `image::DynamicImage::rotate270`: a quarter turn
/// counter-clockwise, which swaps width and height.
#[verifier::external_body]
fn rotate270_picture(p: &Picture) -> (r: Picture)
    ensures
        r.spec_width() == p.spec_height(),
        r.spec_height() == p.spec_width(),
{
    Picture { img: p.img.rotate270(), width: p.height, height: p.width }
}

/// Relies on `image::DynamicImage::resize` with the Catmull-Rom kernel: the
/// result preserves aspect ratio and is the largest size that fits within
/// the bounds, its dimensions a function of the input dimensions and the
/// bounds alone.  With bounds of at least one pixel each, the result stays
/// within them and keeps at least one pixel per side; for a source of at
/// least one pixel per side, the fit is maximal, so the result reaches the
/// bound on at least one axis.
#[verifier::external_body]
fn resize_picture(p: &Picture, max_w: u32, max_h: u32) -> (r: Picture)
    ensures
        (r.spec_width(), r.spec_height()) == resized_dims_of(
            p.spec_width(),
            p.spec_height(),
            max_w,
            max_h,
        ),
        max_w >= 1 && max_h >= 1 ==> 1 <= r.spec_width() <= max_w && 1 <= r.spec_height()
            <= max_h,
        p.spec_width() >= 1 && p.spec_height() >= 1 && max_w >= 1 && max_h >= 1 ==> (
        r.spec_width() == max_w || r.spec_height() == max_h),
{
    let img = p.img.resize(max_w, max_h, image::imageops::FilterType::CatmullRom);
    let (width, height) = img.dimensions();
    Picture { img, width, height }
}

/// Relies on `image::DynamicImage::write_to` with the JPEG format: it
/// encodes the pixel buffer at the library's default quality, converting
/// the color type itself where the encoder wants another.  The encoder
/// accepts exactly the images whose sides are nonzero and fit in sixteen
/// bits, and writes the pixel dimensions into the stream, so the bytes
/// decode back to the same geometry — provided they fit the reader's
/// default allocation bound, which the decoding side enforces.
#[verifier::external_body]
pub(crate) fn encode_jpeg(p: &Picture) -> (r: Result<Vec<u8>, image::ImageError>)
    ensures
        r is Ok <==> (1 <= p.spec_width() <= 0xffff && 1 <= p.spec_height() <= 0xffff),
        r matches Ok(b) ==> (fits_decode_limit(p.spec_width(), p.spec_height())
            ==> decoded_dims_of(b@) == Some((p.spec_width(), p.spec_height()))),
{
    let mut buf = Vec::new();
    p.img.write_to(&mut std::io::Cursor::new(&mut buf), image::ImageFormat::Jpeg)?;
    Ok(buf)
}

/// Decode in-memory image bytes into a picture.  A failure — corrupt bytes,
/// an unsupported format — surfaces as the gallery's decode error, naming
/// the file; it aborts that item's processing, never substitutes a value.
pub fn decode_image(name: &str, bytes: &[u8]) -> (r: Result<Picture, GalleryError>)
    ensures
        r is Ok <==> decoded_dims_of(bytes@) is Some,
        r matches Ok(p) ==> Some((p.spec_width(), p.spec_height())) == decoded_dims_of(bytes@),
        r matches Err(e) ==> (e matches GalleryError::DecodeFailed { name: n } && n@ == name@),
{
    match decode_picture(bytes) {
        Ok(p) => Ok(p),
        Err(_) => Err(GalleryError::DecodeFailed { name: name.to_owned() }),
    }
}

/// Whether an image of this geometry is a panorama: its width is more than
/// twice its height (a width-to-height ratio strictly greater than two).
pub open spec fn spec_is_panorama(w: u32, h: u32) -> bool {
    w > 2 * h
}

/// Decide whether an image of this geometry is a panorama.
pub fn is_panorama(width: u32, height: u32) -> (r: bool)
    ensures
        r == spec_is_panorama(width, height),
{
    (width as u64) > 2 * (height as u64)
}

/// The geometry after the corrective rotation: quarter turns swap width and
/// height, the identity and the half turn keep them.
pub open spec fn spec_rotated_dims(o: Orientation, w: u32, h: u32) -> (u32, u32) {
    match o {
        Orientation::Deg0 => (w, h),
        Orientation::Deg90 => (h, w),
        Orientation::Deg180 => (w, h),
        Orientation::Deg270 => (h, w),
    }
}

/// Apply the corrective rotation to a decoded image.
pub fn apply_orientation(p: &Picture, o: Orientation) -> (r: Picture)
    ensures
        (r.spec_width(), r.spec_height()) == spec_rotated_dims(o, p.spec_width(), p.spec_height()),
{
    match o {
        Orientation::Deg0 => clone_picture(p),
        Orientation::Deg90 => rotate270_picture(p),
        Orientation::Deg180 => rotate180_picture(p),
        Orientation::Deg270 => rotate90_picture(p),
    }
}

/// The geometry of a transformed image: unchanged for an exempted panorama,
/// otherwise rotated and then fitted into the bounding box.
pub open spec fn spec_transform_dims(
    w: u32,
    h: u32,
    max_w: u32,
    max_h: u32,
    o: Orientation,
    exempt_panorama: bool,
) -> (u32, u32) {
    if exempt_panorama && spec_is_panorama(w, h) {
        (w, h)
    } else {
        let rotated = spec_rotated_dims(o, w, h);
        resized_dims_of(rotated.0, rotated.1, max_w, max_h)
    }
}

/// Transform a decoded image: an exempted panorama keeps its geometry
/// untouched (no rotation, no resize); every other image is rotated by the
/// corrective rotation and then resized to fit within the bounding box.
pub fn transform_picture(
    p: &Picture,
    max_w: u32,
    max_h: u32,
    o: Orientation,
    exempt_panorama: bool,
) -> (r: Picture)
    ensures
        (r.spec_width(), r.spec_height()) == spec_transform_dims(
            p.spec_width(),
            p.spec_height(),
            max_w,
            max_h,
            o,
            exempt_panorama,
        ),
        !(exempt_panorama && spec_is_panorama(p.spec_width(), p.spec_height())) && max_w >= 1
            && max_h >= 1 ==> 1 <= r.spec_width() <= max_w && 1 <= r.spec_height() <= max_h,
        !(exempt_panorama && spec_is_panorama(p.spec_width(), p.spec_height())) && p.spec_width()
            >= 1 && p.spec_height() >= 1 && max_w >= 1 && max_h >= 1 ==> (r.spec_width() == max_w
            || r.spec_height() == max_h),
{
    if exempt_panorama && is_panorama(p.width, p.height) {
        clone_picture(p)
    } else {
        let rotated = apply_orientation(p, o);
        resize_picture(&rotated, max_w, max_h)
    }
}

/// Law: the panorama exemption.  A panorama transformed with the exemption
/// enabled keeps its pixel dimensions exactly; with the exemption disabled
/// it goes down the normal path — rotated, then fitted to the bounds.
pub proof fn lemma_panorama_exemption(w: u32, h: u32, max_w: u32, max_h: u32, o: Orientation)
    requires
        spec_is_panorama(w, h),
    ensures
        spec_transform_dims(w, h, max_w, max_h, o, true) == (w, h),
        spec_transform_dims(w, h, max_w, max_h, o, false) == resized_dims_of(
            spec_rotated_dims(o, w, h).0,
            spec_rotated_dims(o, w, h).1,
            max_w,
            max_h,
        ),
{
}

} // verus!
