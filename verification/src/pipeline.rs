//! The batch pipeline: per-item processing and the whole-run orchestrator.
//!
//! Each retained input file is processed independently: its orientation is
//! read from the EXIF metadata, a thumbnail is generated, and the full-size
//! output is either resized or marked for a byte-for-byte copy.  The
//! orchestrator sorts the inputs into the gallery's deterministic order,
//! processes them one by one, appends each full-size image to the download
//! archive when one is wanted, and aggregates the item list — aborting the
//! whole run on the first unrecoverable error.

use vstd::prelude::*;
use vstd::utf8::encode_utf8;
use crate::archive::ArchiveBuilder;
use crate::archive::archive_entries;
use crate::errors::GalleryError;
use crate::filenames::is_jpeg_name;
use crate::filenames::is_jpeg_name_spec;
use crate::filenames::thumbnail_name_of;
use crate::order::lemma_lex_le_reflexive;
use crate::order::lemma_lex_le_total;
use crate::order::lemma_lex_le_trans;
use crate::order::lex_le;
use crate::order::str_lex_le;
use crate::manifest::GalleryItem;
use crate::manifest::build_item;
use crate::orientation::image_orientation;
use crate::orientation::orientation_from_bytes;
use crate::transform::decode_image;
use crate::transform::decoded_dims_of;
use crate::transform::encode_jpeg;
use crate::transform::fits_decode_limit;
use crate::transform::spec_transform_dims;
use crate::transform::transform_picture;

verus! {

/// The configuration surface of one gallery run.
pub struct GalleryConfig {
    /// Height bound of a thumbnail in pixels; its width bound is four times
    /// this.
    pub thumbnail_height: u32,
    /// When set, a full-size image larger than this bound on either side is
    /// resized down to fit a square box of this bound; smaller images, and
    /// all images when unset, are copied byte for byte.
    pub max_large_size: Option<u32>,
    /// When set, panoramas too go down the normal resize path for the
    /// full-size output; when unset they are exempted.
    pub resize_include_panorama: bool,
    /// Whether a download archive is produced.
    pub download: bool,
    /// When set, nothing that touches pixel data runs: output names are
    /// still derived and the manifest still lists every item, but no
    /// thumbnail, full-size file or archive entry is produced.
    pub skip_processing: bool,
}

impl GalleryConfig {
    /// The thumbnail bounding box must fit in pixel coordinates.
    pub open spec fn valid(&self) -> bool {
        4 * self.thumbnail_height <= u32::MAX
    }
}

/// One input file: its name and its bytes.
pub struct GalleryInput {
    pub name: String,
    pub bytes: Vec<u8>,
}

/// An encoded output image, with the geometry it was encoded at.
#[derive(Debug)]
pub struct EncodedImage {
    pub bytes: Vec<u8>,
    pub width: u32,
    pub height: u32,
}

/// The full-size output of one item.
#[derive(Debug)]
pub enum FullImage {
    /// Processing was skipped: no full-size output.
    Skipped,
    /// The original is copied byte for byte, with no re-encoding.
    CopyOriginal,
    /// The image was transformed and re-encoded.
    Resized(EncodedImage),
}

/// Everything the pipeline produces for one input file.
#[derive(Debug)]
pub struct ProcessedImage {
    pub item: GalleryItem,
    pub thumbnail: Option<EncodedImage>,
    pub full: FullImage,
}

/// What processing one input correctly means: the output names are derived
/// from the input name; with processing skipped nothing else is produced;
/// otherwise the thumbnail is the image fitted to the four-to-one thumbnail
/// box after corrective rotation (panoramas not exempted), and the full-size
/// output is resized exactly when a size bound is set and exceeded, and
/// copied byte for byte otherwise.
pub open spec fn processed_matches(
    p: ProcessedImage,
    name: Seq<char>,
    bytes: Seq<u8>,
    cfg: GalleryConfig,
) -> bool {
    &&& p.item.filename_full@ == name
    &&& p.item.filename_thumb@ == thumbnail_name_of(name)
    &&& cfg.skip_processing ==> p.thumbnail is None && p.full is Skipped
    &&& !cfg.skip_processing ==> {
        &&& decoded_dims_of(bytes) is Some
        &&& {
            let dims = decoded_dims_of(bytes)->0;
            let o = image_orientation(bytes);
            &&& (p.thumbnail matches Some(t) && (t.width, t.height) == spec_transform_dims(
                dims.0,
                dims.1,
                (4 * cfg.thumbnail_height) as u32,
                cfg.thumbnail_height,
                o,
                false,
            ) && (fits_decode_limit(t.width, t.height) ==> decoded_dims_of(t.bytes@) == Some(
                (t.width, t.height),
            )))
            &&& match cfg.max_large_size {
                None => p.full is CopyOriginal,
                Some(bound) => if dims.0 > bound || dims.1 > bound {
                    p.full matches FullImage::Resized(e) && (e.width, e.height)
                        == spec_transform_dims(
                        dims.0,
                        dims.1,
                        bound,
                        bound,
                        o,
                        !cfg.resize_include_panorama,
                    ) && (fits_decode_limit(e.width, e.height) ==> decoded_dims_of(e.bytes@)
                        == Some((e.width, e.height)))
                } else {
                    p.full is CopyOriginal
                },
            }
        }
    }
}

/// The JPEG names among a list of directory entry names, in their given
/// order: the names ending in `.jpg` or `.JPG` stay, everything else is
/// discarded.
pub open spec fn jpeg_names(names: Seq<Seq<char>>) -> Seq<Seq<char>>
    decreases names.len(),
{
    if names.len() == 0 {
        Seq::empty()
    } else {
        let rest = jpeg_names(names.drop_last());
        if is_jpeg_name_spec(names.last()) {
            rest.push(names.last())
        } else {
            rest
        }
    }
}

/// Retain the JPEG inputs among the directory entry names.  Non-matching
/// names are not errors, just excluded.
pub fn filter_jpeg_names(names: &Vec<String>) -> (r: Vec<String>)
    ensures
        r@.map_values(|s: String| s@) == jpeg_names(names@.map_values(|s: String| s@)),
{
    let mut out: Vec<String> = Vec::new();
    let mut i: usize = 0;
    proof {
        assert(names@.map_values(|s: String| s@).subrange(0, 0) =~= Seq::<Seq<char>>::empty());
    }
    while i < names.len()
        invariant
            i <= names@.len(),
            out@.map_values(|s: String| s@) == jpeg_names(
                names@.map_values(|s: String| s@).subrange(0, i as int),
            ),
        decreases names@.len() - i,
    {
        let ghost prev = out@;
        let name = &names[i];
        if is_jpeg_name(name.as_str()) {
            out.push(name.clone());
            proof {
                assert(out@.map_values(|s: String| s@) =~= prev.map_values(|s: String| s@).push(
                    name@,
                ));
            }
        }
        proof {
            let m = names@.map_values(|s: String| s@);
            assert(m.subrange(0, i + 1).drop_last() =~= m.subrange(0, i as int));
            assert(m.subrange(0, i + 1).last() == m[i as int]);
        }
        i = i + 1;
    }
    proof {
        assert(names@.map_values(|s: String| s@).subrange(0, names@.len() as int) =~= names@.map_values(
            |s: String| s@,
        ));
    }
    out
}

/// A list of inputs as mathematical values: each input's name and bytes.
pub open spec fn input_models(inputs: Seq<GalleryInput>) -> Seq<(Seq<char>, Seq<u8>)> {
    inputs.map_values(|g: GalleryInput| (g.name@, g.bytes@))
}

/// Whether a list of inputs stands in the gallery's deterministic order.
pub open spec fn inputs_sorted(inputs: Seq<GalleryInput>) -> bool {
    forall|i: int, j: int|
        0 <= i < j < inputs.len() ==> lex_le(#[trigger] inputs[i].name@, #[trigger] inputs[j].name@)
}

proof fn lemma_input_models_remove(s: Seq<GalleryInput>, i: int)
    requires
        0 <= i < s.len(),
    ensures
        input_models(s.remove(i)) =~= input_models(s).remove(i),
{
}

/// Sort the inputs into the gallery's deterministic order: lexicographic by
/// name.  The result is a permutation of the inputs.
pub fn sort_inputs(inputs: Vec<GalleryInput>) -> (r: Vec<GalleryInput>)
    ensures
        inputs_sorted(r@),
        input_models(r@).to_multiset() == input_models(inputs@).to_multiset(),
        r@.len() == inputs@.len(),
{
    broadcast use vstd::seq_lib::group_to_multiset_ensures;

    let mut rest = inputs;
    let mut out: Vec<GalleryInput> = Vec::new();
    while rest.len() > 0
        invariant
            inputs_sorted(out@),
            forall|i: int, j: int|
                0 <= i < out@.len() && 0 <= j < rest@.len() ==> lex_le(
                    #[trigger] out@[i].name@,
                    #[trigger] rest@[j].name@,
                ),
            input_models(out@).to_multiset().add(input_models(rest@).to_multiset())
                == input_models(inputs@).to_multiset(),
            out@.len() + rest@.len() == inputs@.len(),
        decreases rest@.len(),
    {
        let mut min: usize = 0;
        let mut k: usize = 1;
        proof {
            lemma_lex_le_reflexive(rest@[0].name@);
        }
        while k < rest.len()
            invariant
                0 <= min < rest@.len(),
                k <= rest@.len(),
                rest@.len() > 0,
                forall|j: int| 0 <= j < k ==> lex_le(rest@[min as int].name@, #[trigger] rest@[j].name@),
            decreases rest@.len() - k,
        {
            if str_lex_le(rest[k].name.as_str(), rest[min].name.as_str()) {
                proof {
                    let old_min = min as int;
                    assert forall|j: int| 0 <= j < k + 1 implies lex_le(
                        rest@[k as int].name@,
                        #[trigger] rest@[j].name@,
                    ) by {
                        if j < k {
                            lemma_lex_le_trans(rest@[k as int].name@, rest@[old_min].name@, rest@[j].name@);
                        } else {
                            lemma_lex_le_reflexive(rest@[k as int].name@);
                        }
                    }
                }
                min = k;
            } else {
                proof {
                    lemma_lex_le_total(rest@[k as int].name@, rest@[min as int].name@);
                }
            }
            k = k + 1;
        }
        let ghost old_out = out@;
        let ghost old_rest = rest@;
        let picked = rest.remove(min);
        out.push(picked);
        proof {
            let x = (picked.name@, picked.bytes@);
            lemma_input_models_remove(old_rest, min as int);
            vstd::seq_lib::to_multiset_build::<(Seq<char>, Seq<u8>)>(input_models(old_out), x);
            vstd::seq_lib::to_multiset_remove::<(Seq<char>, Seq<u8>)>(
                input_models(old_rest),
                min as int,
            );
            assert(input_models(old_rest)[min as int] == x);
            assert(input_models(out@) =~= input_models(old_out).push(x));
            assert(input_models(out@).to_multiset() == input_models(old_out).push(x).to_multiset());
            assert(input_models(old_out).push(x).to_multiset() =~= input_models(
                old_out,
            ).to_multiset().insert(x));
            assert(input_models(rest@).to_multiset() == input_models(old_rest).remove(
                min as int,
            ).to_multiset());
            assert(input_models(old_rest).remove(min as int).to_multiset() =~= input_models(
                old_rest,
            ).to_multiset().remove(x));
            assert(input_models(old_rest).to_multiset().count(x) >= 1) by {
                assert(input_models(old_rest).contains(x));
                vstd::seq_lib::to_multiset_contains::<(Seq<char>, Seq<u8>)>(
                    input_models(old_rest),
                    x,
                );
            }
            assert(input_models(out@).to_multiset().add(input_models(rest@).to_multiset())
                =~= input_models(old_out).to_multiset().add(input_models(old_rest).to_multiset()));
        }
    }
    out
}

/// The geometries the JPEG encoder accepts: both sides nonzero and within
/// sixteen bits.
pub open spec fn jpeg_encodable(dims: (u32, u32)) -> bool {
    1 <= dims.0 <= 0xffff && 1 <= dims.1 <= 0xffff
}

/// When processing one input succeeds: its name is nonempty, and — unless
/// processing is skipped — its bytes decode, the thumbnail's geometry is one
/// the JPEG encoder accepts, and, where the full-size output is resized, so
/// is that output's geometry.
pub open spec fn item_succeeds(name: Seq<char>, bytes: Seq<u8>, cfg: GalleryConfig) -> bool {
    &&& name.len() > 0
    &&& !cfg.skip_processing ==> {
        &&& decoded_dims_of(bytes) is Some
        &&& {
            let dims = decoded_dims_of(bytes)->0;
            let o = image_orientation(bytes);
            &&& jpeg_encodable(
                spec_transform_dims(
                    dims.0,
                    dims.1,
                    (4 * cfg.thumbnail_height) as u32,
                    cfg.thumbnail_height,
                    o,
                    false,
                ),
            )
            &&& match cfg.max_large_size {
                None => true,
                Some(bound) => (dims.0 > bound || dims.1 > bound) ==> jpeg_encodable(
                    spec_transform_dims(
                        dims.0,
                        dims.1,
                        bound,
                        bound,
                        o,
                        !cfg.resize_include_panorama,
                    ),
                ),
            }
        }
    }
}

/// When the download archive surely accepts an input's entry: the name's
/// UTF-8 form fits the ZIP name field, and the full-size output is the
/// byte-for-byte copy of the input — its geometry within the size bound, so
/// no re-encoding, whose output size the model cannot see — itself within
/// the plain (non-ZIP64) entry size limit.
pub open spec fn archive_input_fits(name: Seq<char>, bytes: Seq<u8>, cfg: GalleryConfig) -> bool {
    &&& encode_utf8(name).len() <= 0xffff
    &&& bytes.len() <= 0xffffffff
    &&& match cfg.max_large_size {
        None => true,
        Some(bound) => decoded_dims_of(bytes) matches Some(d) && d.0 <= bound && d.1 <= bound,
    }
}

/// Process one input file: derive its output names and, unless processing
/// is skipped, decode it once, generate the thumbnail, and resize-or-copy
/// the full-size output.  Fails on an empty name, on undecodable bytes and
/// on a re-encoding failure, naming the file; a missing or unreadable
/// orientation tag is not a failure.
pub fn process_image(name: &str, bytes: &Vec<u8>, cfg: &GalleryConfig) -> (r: Result<
    ProcessedImage,
    GalleryError,
>)
    requires
        cfg.valid(),
    ensures
        r matches Ok(p) ==> processed_matches(p, name@, bytes@, *cfg),
        r is Ok <==> item_succeeds(name@, bytes@, *cfg),
        r matches Err(e) ==> e.spec_file_name() == name@,
        name@.len() == 0 <==> (r matches Err(e) && e is InvalidFileName),
        !cfg.skip_processing && name@.len() > 0 ==> ((r matches Err(e) && e is DecodeFailed)
            <==> decoded_dims_of(bytes@) is None),
        (r matches Err(e) && e is EncodeFailed) <==> (name@.len() > 0 && !cfg.skip_processing
            && decoded_dims_of(bytes@) is Some && !item_succeeds(name@, bytes@, *cfg)),
        r matches Err(e) ==> !(e is ArchiveWrite),
{
    let item = match build_item(name) {
        Ok(item) => item,
        Err(e) => {
            return Err(e);
        },
    };
    if cfg.skip_processing {
        return Ok(ProcessedImage { item, thumbnail: None, full: FullImage::Skipped });
    }
    let orientation = orientation_from_bytes(bytes.as_slice());
    let pic = match decode_image(name, bytes.as_slice()) {
        Ok(pic) => pic,
        Err(e) => {
            return Err(e);
        },
    };
    let thumb_pic = transform_picture(
        &pic,
        4 * cfg.thumbnail_height,
        cfg.thumbnail_height,
        orientation,
        false,
    );
    let thumb_bytes = match encode_jpeg(&thumb_pic) {
        Ok(b) => b,
        Err(_) => {
            return Err(GalleryError::EncodeFailed { name: name.to_owned() });
        },
    };
    let thumbnail = EncodedImage {
        bytes: thumb_bytes,
        width: thumb_pic.width(),
        height: thumb_pic.height(),
    };
    let full = match cfg.max_large_size {
        Some(bound) => {
            if pic.width() > bound || pic.height() > bound {
                let full_pic = transform_picture(
                    &pic,
                    bound,
                    bound,
                    orientation,
                    !cfg.resize_include_panorama,
                );
                let full_bytes = match encode_jpeg(&full_pic) {
                    Ok(b) => b,
                    Err(_) => {
                        return Err(GalleryError::EncodeFailed { name: name.to_owned() });
                    },
                };
                FullImage::Resized(
                    EncodedImage {
                        bytes: full_bytes,
                        width: full_pic.width(),
                        height: full_pic.height(),
                    },
                )
            } else {
                FullImage::CopyOriginal
            }
        },
        None => FullImage::CopyOriginal,
    };
    Ok(ProcessedImage { item, thumbnail: Some(thumbnail), full })
}

/// The bytes of the full-size output file of one processed item: the
/// re-encoded bytes when it was resized, the original bytes when it is
/// copied byte for byte.
pub open spec fn full_output_bytes(p: ProcessedImage, original: Seq<u8>) -> Seq<u8> {
    match p.full {
        FullImage::Resized(e) => e.bytes@,
        _ => original,
    }
}

/// Everything one run produces, for the caller to write out.
pub struct GalleryRun {
    /// The inputs in the order processed — the gallery's deterministic
    /// order.  For a `CopyOriginal` output the caller copies the bytes of
    /// the source at the same index.
    pub sources: Vec<GalleryInput>,
    /// One processed output per source, in the same order.
    pub processed: Vec<ProcessedImage>,
    /// One manifest item per source, in the same order.
    pub items: Vec<GalleryItem>,
    /// The download archive when one is wanted, not yet finalized: one
    /// entry per source in order, or no entries when processing was
    /// skipped.
    pub archive: Option<ArchiveBuilder>,
}

proof fn lemma_name_in_inputs(sources: Seq<GalleryInput>, inputs: Seq<GalleryInput>, i: int)
    requires
        0 <= i < sources.len(),
        input_models(sources).to_multiset() == input_models(inputs).to_multiset(),
    ensures
        exists|j: int|
            0 <= j < inputs.len() && inputs[j].name@ == sources[i].name@ && inputs[j].bytes@
                == sources[i].bytes@,
{
    broadcast use vstd::seq_lib::group_to_multiset_ensures;

    let x = (sources[i].name@, sources[i].bytes@);
    assert(input_models(sources)[i] == x);
    assert(input_models(sources).contains(x));
    vstd::seq_lib::to_multiset_contains::<(Seq<char>, Seq<u8>)>(input_models(sources), x);
    vstd::seq_lib::to_multiset_contains::<(Seq<char>, Seq<u8>)>(input_models(inputs), x);
    assert(input_models(sources).to_multiset().count(x) > 0);
    assert(input_models(inputs).contains(x));
    let j = choose|j: int|
        0 <= j < input_models(inputs).len() && input_models(inputs)[j] == x;
    assert(inputs[j].name@ == x.0);
    assert(inputs[j].bytes@ == x.1);
}

proof fn lemma_sources_names_distinct(sources: Seq<GalleryInput>, inputs: Seq<GalleryInput>)
    requires
        input_models(sources).to_multiset() == input_models(inputs).to_multiset(),
        forall|i: int, j: int| 0 <= i < j < inputs.len() ==> inputs[i].name@ != inputs[j].name@,
    ensures
        forall|a: int, b: int| 0 <= a < b < sources.len() ==> sources[a].name@ != sources[b].name@,
{
    broadcast use vstd::seq_lib::group_to_multiset_ensures;

    assert(input_models(inputs).no_duplicates()) by {
        assert forall|i: int, j: int|
            0 <= i < input_models(inputs).len() && 0 <= j < input_models(inputs).len() && i
                != j implies input_models(inputs)[i] != input_models(inputs)[j] by {
            if i < j {
                assert(inputs[i].name@ != inputs[j].name@);
            } else {
                assert(inputs[j].name@ != inputs[i].name@);
            }
        }
    }
    input_models(inputs).lemma_multiset_has_no_duplicates();
    assert(forall|x: (Seq<char>, Seq<u8>)|
        input_models(sources).to_multiset().contains(x) ==> input_models(
            sources,
        ).to_multiset().count(x) == 1);
    input_models(sources).lemma_multiset_has_no_duplicates_conv();
    assert forall|a: int, b: int| 0 <= a < b < sources.len() implies sources[a].name@
        != sources[b].name@ by {
        if sources[a].name@ == sources[b].name@ {
            let x = input_models(sources)[a];
            let y = input_models(sources)[b];
            assert(x != y);
            assert(input_models(sources).contains(x));
            assert(input_models(sources).contains(y));
            vstd::seq_lib::to_multiset_contains::<(Seq<char>, Seq<u8>)>(input_models(sources), x);
            vstd::seq_lib::to_multiset_contains::<(Seq<char>, Seq<u8>)>(input_models(sources), y);
            vstd::seq_lib::to_multiset_contains::<(Seq<char>, Seq<u8>)>(input_models(inputs), x);
            vstd::seq_lib::to_multiset_contains::<(Seq<char>, Seq<u8>)>(input_models(inputs), y);
            assert(input_models(inputs).contains(x));
            assert(input_models(inputs).contains(y));
            let i = choose|i: int|
                0 <= i < input_models(inputs).len() && input_models(inputs)[i] == x;
            let j = choose|j: int|
                0 <= j < input_models(inputs).len() && input_models(inputs)[j] == y;
            assert(inputs[i].name@ == x.0);
            assert(inputs[j].name@ == y.0);
            assert(i != j);
            if i < j {
                assert(inputs[i].name@ != inputs[j].name@);
            } else {
                assert(inputs[j].name@ != inputs[i].name@);
            }
            assert(false);
        }
    }
}

/// Drive one whole run over in-memory inputs: sort them into the
/// deterministic order, process each in turn, append each full-size output
/// to the download archive when one is wanted, and aggregate the ordered
/// item list.  The first unrecoverable error aborts the run, naming the
/// offending file.
pub fn build_gallery(inputs: Vec<GalleryInput>, cfg: &GalleryConfig) -> (r: Result<
    GalleryRun,
    GalleryError,
>)
    requires
        cfg.valid(),
    ensures
        r matches Ok(run) ==> {
            &&& run.sources@.len() == inputs@.len()
            &&& inputs_sorted(run.sources@)
            &&& input_models(run.sources@).to_multiset() == input_models(inputs@).to_multiset()
            &&& run.processed@.len() == run.sources@.len()
            &&& run.items@.len() == run.sources@.len()
            &&& forall|i: int|
                0 <= i < run.items@.len() ==> #[trigger] run.items@[i] == run.processed@[i].item
            &&& forall|i: int|
                0 <= i < run.processed@.len() ==> processed_matches(
                    #[trigger] run.processed@[i],
                    run.sources@[i].name@,
                    run.sources@[i].bytes@,
                    *cfg,
                )
            &&& crate::order::names_sorted(
                run.items@.map_values(|it: GalleryItem| it.filename_full@),
            )
            &&& (run.archive is Some) == cfg.download
            &&& cfg.download && !cfg.skip_processing ==> {
                let entries = archive_entries(run.archive->0);
                &&& entries.len() == run.items@.len()
                &&& forall|i: int|
                    0 <= i < entries.len() ==> #[trigger] entries[i] == (
                        run.items@[i].filename_full@,
                        full_output_bytes(run.processed@[i], run.sources@[i].bytes@),
                    )
            }
            &&& cfg.download && cfg.skip_processing ==> archive_entries(run.archive->0).len()
                == 0
        },
        r matches Err(e) ==> exists|i: int|
            0 <= i < inputs@.len() && #[trigger] inputs@[i].name@ == e.spec_file_name(),
        ((forall|i: int|
            0 <= i < inputs@.len() ==> item_succeeds(
                #[trigger] inputs@[i].name@,
                inputs@[i].bytes@,
                *cfg,
            )) && (cfg.download && !cfg.skip_processing ==> (forall|i: int, j: int|
            0 <= i < j < inputs@.len() ==> #[trigger] inputs@[i].name@ != #[trigger] inputs@[j].name@)
            && (forall|i: int|
            0 <= i < inputs@.len() ==> archive_input_fits(
                #[trigger] inputs@[i].name@,
                inputs@[i].bytes@,
                *cfg,
            )))) ==> r is Ok,
{
    let sources = sort_inputs(inputs);
    let mut archive: Option<ArchiveBuilder> = if cfg.download {
        Some(ArchiveBuilder::new())
    } else {
        None
    };
    let mut processed: Vec<ProcessedImage> = Vec::new();
    let mut items: Vec<GalleryItem> = Vec::new();
    let mut i: usize = 0;
    while i < sources.len()
        invariant
            cfg.valid(),
            i <= sources@.len(),
            inputs_sorted(sources@),
            input_models(sources@).to_multiset() == input_models(inputs@).to_multiset(),
            sources@.len() == inputs@.len(),
            processed@.len() == i,
            items@.len() == i,
            forall|j: int| 0 <= j < i ==> #[trigger] items@[j] == processed@[j].item,
            forall|j: int|
                0 <= j < i ==> processed_matches(
                    #[trigger] processed@[j],
                    sources@[j].name@,
                    sources@[j].bytes@,
                    *cfg,
                ),
            (archive is Some) == cfg.download,
            cfg.download && !cfg.skip_processing ==> {
                let entries = archive_entries(archive->0);
                &&& entries.len() == i
                &&& forall|j: int|
                    0 <= j < i ==> #[trigger] entries[j] == (
                        processed@[j].item.filename_full@,
                        full_output_bytes(processed@[j], sources@[j].bytes@),
                    )
            },
            cfg.download && cfg.skip_processing ==> archive_entries(archive->0).len() == 0,
        decreases sources@.len() - i,
    {
        let src = &sources[i];
        let p = match process_image(src.name.as_str(), &src.bytes, cfg) {
            Ok(p) => p,
            Err(e) => {
                proof {
                    lemma_name_in_inputs(sources@, inputs@, i as int);
                    if forall|k: int|
                        0 <= k < inputs@.len() ==> item_succeeds(
                            #[trigger] inputs@[k].name@,
                            inputs@[k].bytes@,
                            *cfg,
                        ) {
                        let j = choose|j: int|
                            0 <= j < inputs@.len() && inputs@[j].name@ == sources@[
                                i as int].name@ && inputs@[j].bytes@ == sources@[i as int].bytes@;
                        assert(item_succeeds(inputs@[j].name@, inputs@[j].bytes@, *cfg));
                        assert(!item_succeeds(
                            sources@[i as int].name@,
                            sources@[i as int].bytes@,
                            *cfg,
                        ));
                        assert(false);
                    }
                }
                return Err(e);
            },
        };
        if !cfg.skip_processing {
            archive = match archive {
                Some(mut builder) => {
                    let entry_bytes: &Vec<u8> = match &p.full {
                        FullImage::Resized(e) => &e.bytes,
                        _ => &src.bytes,
                    };
                    proof {
                        assert(entry_bytes@ == full_output_bytes(p, src.bytes@));
                    }
                    let ghost entries_before = archive_entries(builder);
                    let res = builder.append(p.item.filename_full.as_str(), entry_bytes.as_slice());
                    if res.is_err() {
                        proof {
                            lemma_name_in_inputs(sources@, inputs@, i as int);
                            assert(cfg.download);
                            if (forall|k: int|
                                0 <= k < inputs@.len() ==> item_succeeds(
                                    #[trigger] inputs@[k].name@,
                                    inputs@[k].bytes@,
                                    *cfg,
                                )) && (forall|a: int, b: int|
                                0 <= a < b < inputs@.len() ==> #[trigger] inputs@[a].name@
                                    != #[trigger] inputs@[b].name@) && (forall|k: int|
                                0 <= k < inputs@.len() ==> archive_input_fits(
                                    #[trigger] inputs@[k].name@,
                                    inputs@[k].bytes@,
                                    *cfg,
                                )) {
                                lemma_sources_names_distinct(sources@, inputs@);
                                let j = choose|j: int|
                                    0 <= j < inputs@.len() && inputs@[j].name@ == sources@[
                                        i as int].name@ && inputs@[j].bytes@ == sources@[
                                        i as int].bytes@;
                                assert(archive_input_fits(
                                    sources@[i as int].name@,
                                    sources@[i as int].bytes@,
                                    *cfg,
                                ));
                                assert(p.full is CopyOriginal);
                                assert(entry_bytes@.len() <= 0xffffffff);
                                assert(p.item.filename_full@ == sources@[i as int].name@);
                                assert(encode_utf8(p.item.filename_full@).len() <= 0xffff);
                                assert forall|k: int|
                                    0 <= k < entries_before.len() implies #[trigger] entries_before[k].0
                                    != p.item.filename_full@ by {
                                    assert(entries_before[k].0 == sources@[k].name@);
                                }
                                assert(false);
                            }
                        }
                        return Err(
                            GalleryError::ArchiveWrite { name: p.item.filename_full.clone() },
                        );
                    }
                    Some(builder)
                },
                None => None,
            };
        }
        items.push(p.item.duplicate());
        processed.push(p);
        i = i + 1;
    }
    proof {
        let names = items@.map_values(|it: GalleryItem| it.filename_full@);
        assert forall|a: int, b: int| 0 <= a < b < names.len() implies lex_le(
            names[a],
            names[b],
        ) by {
            assert(items@[a] == processed@[a].item);
            assert(items@[b] == processed@[b].item);
            assert(processed_matches(processed@[a], sources@[a].name@, sources@[a].bytes@, *cfg));
            assert(processed_matches(processed@[b], sources@[b].name@, sources@[b].bytes@, *cfg));
            assert(names[a] == sources@[a].name@);
            assert(names[b] == sources@[b].name@);
        }
    }
    Ok(GalleryRun { sources, processed, items, archive })
}

} // verus!
