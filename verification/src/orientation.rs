//! Corrective image rotation derived from EXIF metadata.
//!
//! Only quarter-turn rotations are represented.  Mirrored orientations, tag
//! values outside the four rotation-only codes, a missing tag and unreadable
//! metadata all collapse to the identity rotation: reading an orientation
//! never fails.

use vstd::prelude::*;

verus! {

/// The corrective rotation to apply to an image before it is displayed.
#[derive(Copy, Clone, Debug, PartialEq, Eq, Structural)]
pub enum Orientation {
    Deg0,
    Deg90,
    Deg180,
    Deg270,
}

/// The rotation an EXIF orientation tag value calls for.  Tag value 1 is
/// upright; 6 means the stored image must be rotated by 270 degrees to
/// display upright, 3 by 180 degrees and 8 by 90 degrees.  Every other
/// value, the mirrored orientations included, maps to the identity.
pub open spec fn orientation_of_tag(tag: u16) -> Orientation {
    if tag == 8 {
        Orientation::Deg90
    } else if tag == 3 {
        Orientation::Deg180
    } else if tag == 6 {
        Orientation::Deg270
    } else {
        Orientation::Deg0
    }
}

/// The list of values of the primary EXIF orientation tag of an image file
/// with these bytes, or `None` when the file has no readable EXIF segment,
/// no orientation tag, or an orientation tag that is not a list of 16-bit
/// integers.  Parsing is a function of the bytes alone.
pub uninterp spec fn exif_orientation_values(bytes: Seq<u8>) -> Option<Seq<u16>>;

/// Relies on `exif::Reader::read_from_container` and `exif::Exif::get_field`:
/// parsing an in-memory byte buffer depends on the bytes alone.  Returns the
/// values of the primary orientation tag when it exists and has the 16-bit
/// integer shape, and `None` on any parse failure.
#[verifier::external_body]
fn read_exif_orientation(bytes: &[u8]) -> (r: Option<Vec<u16>>)
    ensures
        r.deep_view() == exif_orientation_values(bytes@),
{
    let parsed = exif::Reader::new().read_from_container(&mut std::io::Cursor::new(bytes));
    match parsed {
        Ok(data) => match data.get_field(exif::Tag::Orientation, exif::In::PRIMARY) {
            Some(field) => match &field.value {
                exif::Value::Short(values) => Some(values.clone()),
                _ => None,
            },
            None => None,
        },
        Err(_) => None,
    }
}

/// The orientation recorded in an image file with these bytes: the rotation
/// called for by the first value of the primary EXIF orientation tag, or the
/// identity when the tag is absent, empty or unreadable.
pub open spec fn image_orientation(bytes: Seq<u8>) -> Orientation {
    match exif_orientation_values(bytes) {
        Some(values) => if values.len() > 0 {
            orientation_of_tag(values[0])
        } else {
            Orientation::Deg0
        },
        None => Orientation::Deg0,
    }
}

/// Map an EXIF orientation tag value to the corrective rotation.
pub fn orientation_from_tag(tag: u16) -> (r: Orientation)
    ensures
        r == orientation_of_tag(tag),
{
    match tag {
        8 => Orientation::Deg90,
        3 => Orientation::Deg180,
        6 => Orientation::Deg270,
        _ => Orientation::Deg0,
    }
}

/// Read the corrective rotation from the EXIF metadata of an image file
/// given as bytes.  Degrades to the identity rotation on every failure:
/// this function never fails.
pub fn orientation_from_bytes(bytes: &[u8]) -> (r: Orientation)
    ensures
        r == image_orientation(bytes@),
{
    match read_exif_orientation(bytes) {
        Some(values) => {
            if values.len() > 0 {
                orientation_from_tag(values[0])
            } else {
                Orientation::Deg0
            }
        },
        None => Orientation::Deg0,
    }
}

} // verus!
