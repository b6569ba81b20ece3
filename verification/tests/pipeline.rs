use galerio::errors::GalleryError;
use galerio::orientation::orientation_from_bytes;
use galerio::orientation::Orientation;
use galerio::pipeline::build_gallery;
use galerio::pipeline::filter_jpeg_names;
use galerio::pipeline::process_image;
use galerio::pipeline::sort_inputs;
use galerio::pipeline::FullImage;
use galerio::pipeline::GalleryConfig;
use galerio::pipeline::GalleryInput;
use galerio::transform::apply_orientation;
use galerio::transform::decode_image;
use galerio::transform::transform_picture;

fn jpeg_bytes(width: u32, height: u32) -> Vec<u8> {
    let img = image::DynamicImage::new_rgb8(width, height);
    let mut buf = Vec::new();
    img.write_to(&mut std::io::Cursor::new(&mut buf), image::ImageFormat::Jpeg)
        .unwrap();
    buf
}

/// A minimal JPEG stream holding only an EXIF segment with one orientation
/// tag; enough for metadata reading, not decodable as an image.
fn exif_only_jpeg(orientation_tag: u16) -> Vec<u8> {
    let mut tiff: Vec<u8> = Vec::new();
    tiff.extend_from_slice(b"II*\0");
    tiff.extend_from_slice(&8u32.to_le_bytes());
    tiff.extend_from_slice(&1u16.to_le_bytes());
    tiff.extend_from_slice(&0x0112u16.to_le_bytes());
    tiff.extend_from_slice(&3u16.to_le_bytes());
    tiff.extend_from_slice(&1u32.to_le_bytes());
    tiff.extend_from_slice(&orientation_tag.to_le_bytes());
    tiff.extend_from_slice(&[0, 0]);
    tiff.extend_from_slice(&0u32.to_le_bytes());
    let mut out: Vec<u8> = vec![0xFF, 0xD8, 0xFF, 0xE1];
    let len = (2 + 6 + tiff.len()) as u16;
    out.extend_from_slice(&len.to_be_bytes());
    out.extend_from_slice(b"Exif\0\0");
    out.extend_from_slice(&tiff);
    out.extend_from_slice(&[0xFF, 0xD9]);
    out
}

fn config(thumb: u32) -> GalleryConfig {
    GalleryConfig {
        thumbnail_height: thumb,
        max_large_size: None,
        resize_include_panorama: false,
        download: false,
        skip_processing: false,
    }
}

#[test]
fn orientation_of_tagged_file_follows_the_mapping() {
    assert_eq!(orientation_from_bytes(&exif_only_jpeg(1)), Orientation::Deg0);
    assert_eq!(orientation_from_bytes(&exif_only_jpeg(8)), Orientation::Deg90);
    assert_eq!(orientation_from_bytes(&exif_only_jpeg(3)), Orientation::Deg180);
    assert_eq!(orientation_from_bytes(&exif_only_jpeg(6)), Orientation::Deg270);
    assert_eq!(orientation_from_bytes(&exif_only_jpeg(2)), Orientation::Deg0);
    assert_eq!(orientation_from_bytes(&exif_only_jpeg(7)), Orientation::Deg0);
}

#[test]
fn orientation_without_metadata_is_identity_and_stable() {
    let plain = jpeg_bytes(8, 8);
    assert_eq!(orientation_from_bytes(&plain), Orientation::Deg0);
    assert_eq!(orientation_from_bytes(&plain), Orientation::Deg0);
    let garbage = vec![1u8, 2, 3, 4];
    assert_eq!(orientation_from_bytes(&garbage), Orientation::Deg0);
    assert_eq!(orientation_from_bytes(&[]), Orientation::Deg0);
}

#[test]
fn decode_reports_geometry() {
    let pic = decode_image("d.jpg", &jpeg_bytes(123, 45)).unwrap();
    assert_eq!((pic.width(), pic.height()), (123, 45));
    assert!(decode_image("d.jpg", &[0u8, 1, 2]).is_err());
}

#[test]
fn corrective_rotation_swaps_geometry() {
    let pic = decode_image("r.jpg", &jpeg_bytes(100, 50)).unwrap();
    let r0 = apply_orientation(&pic, Orientation::Deg0);
    assert_eq!((r0.width(), r0.height()), (100, 50));
    let r90 = apply_orientation(&pic, Orientation::Deg90);
    assert_eq!((r90.width(), r90.height()), (50, 100));
    let r180 = apply_orientation(&pic, Orientation::Deg180);
    assert_eq!((r180.width(), r180.height()), (100, 50));
    let r270 = apply_orientation(&pic, Orientation::Deg270);
    assert_eq!((r270.width(), r270.height()), (50, 100));
}

#[test]
fn panorama_is_exempted_only_when_asked() {
    let pic = decode_image("p.jpg", &jpeg_bytes(3000, 1000)).unwrap();
    let exempt = transform_picture(&pic, 500, 500, Orientation::Deg0, true);
    assert_eq!((exempt.width(), exempt.height()), (3000, 1000));
    let resized = transform_picture(&pic, 500, 500, Orientation::Deg0, false);
    assert_eq!((resized.width(), resized.height()), (500, 167));
}

#[test]
fn ratio_of_exactly_two_is_no_panorama() {
    let pic = decode_image("w.jpg", &jpeg_bytes(4000, 2000)).unwrap();
    let out = transform_picture(&pic, 1200, 300, Orientation::Deg0, true);
    assert_eq!((out.width(), out.height()), (600, 300));
}

#[test]
fn thumbnail_fits_the_four_to_one_box() {
    let bytes = jpeg_bytes(4000, 2000);
    let cfg = config(300);
    let p = process_image("wide.jpg", &bytes, &cfg).unwrap();
    let thumb = p.thumbnail.as_ref().unwrap();
    assert_eq!((thumb.width, thumb.height), (600, 300));
    let decoded = decode_image("t.jpg", &thumb.bytes).unwrap();
    assert_eq!((decoded.width(), decoded.height()), (600, 300));
    assert!(matches!(p.full, FullImage::CopyOriginal));
}

#[test]
fn small_image_is_copied_not_reencoded() {
    let bytes = jpeg_bytes(800, 600);
    let mut cfg = config(300);
    cfg.max_large_size = Some(1024);
    let p = process_image("small.jpg", &bytes, &cfg).unwrap();
    assert!(matches!(p.full, FullImage::CopyOriginal));
}

#[test]
fn large_image_is_resized_to_the_bound() {
    let bytes = jpeg_bytes(2000, 1500);
    let mut cfg = config(300);
    cfg.max_large_size = Some(1000);
    let p = process_image("big.jpg", &bytes, &cfg).unwrap();
    match &p.full {
        FullImage::Resized(e) => {
            assert_eq!((e.width, e.height), (1000, 750));
            let decoded = decode_image("f.jpg", &e.bytes).unwrap();
            assert_eq!((decoded.width(), decoded.height()), (1000, 750));
        }
        _ => panic!("expected a resized full image"),
    }
}

#[test]
fn large_panorama_keeps_geometry_unless_included() {
    let bytes = jpeg_bytes(2400, 800);
    let mut cfg = config(300);
    cfg.max_large_size = Some(1000);
    let p = process_image("pano.jpg", &bytes, &cfg).unwrap();
    match &p.full {
        FullImage::Resized(e) => assert_eq!((e.width, e.height), (2400, 800)),
        _ => panic!("expected a re-encoded panorama"),
    }
    cfg.resize_include_panorama = true;
    let p2 = process_image("pano.jpg", &bytes, &cfg).unwrap();
    match &p2.full {
        FullImage::Resized(e) => {
            assert!(e.width <= 1000 && e.height <= 1000);
            assert_eq!((e.width, e.height), (1000, 333));
        }
        _ => panic!("expected a resized panorama"),
    }
}

#[test]
fn undecodable_input_aborts_with_decode_error() {
    let cfg = config(300);
    let bytes = vec![0u8; 16];
    let err = process_image("corrupt.jpg", &bytes, &cfg).unwrap_err();
    assert!(matches!(err, GalleryError::DecodeFailed { .. }));
    assert_eq!(err.message(), "could not decode image corrupt.jpg");
}

#[test]
fn skip_processing_derives_names_only() {
    let mut cfg = config(300);
    cfg.skip_processing = true;
    let p = process_image("a.jpg", &Vec::new(), &cfg).unwrap();
    assert_eq!(p.item.filename_full, "a.jpg");
    assert_eq!(p.item.filename_thumb, "a.thumb.jpg");
    assert!(p.thumbnail.is_none());
    assert!(matches!(p.full, FullImage::Skipped));
}

#[test]
fn filter_retains_only_jpeg_names_in_order() {
    let names = vec![
        "b.jpg".to_string(),
        "notes.txt".to_string(),
        "a.JPG".to_string(),
        "c.png".to_string(),
        "a.jpg".to_string(),
    ];
    let kept = filter_jpeg_names(&names);
    assert_eq!(kept, vec!["b.jpg", "a.JPG", "a.jpg"]);
}

#[test]
fn sorting_inputs_is_lexicographic_by_name() {
    let inputs = vec![
        GalleryInput { name: "b.jpg".to_string(), bytes: vec![1] },
        GalleryInput { name: "a.jpg".to_string(), bytes: vec![2] },
        GalleryInput { name: "a.JPG".to_string(), bytes: vec![3] },
    ];
    let sorted = sort_inputs(inputs);
    let names: Vec<&str> = sorted.iter().map(|g| g.name.as_str()).collect();
    assert_eq!(names, vec!["a.JPG", "a.jpg", "b.jpg"]);
    assert_eq!(sorted[0].bytes, vec![3]);
    assert_eq!(sorted[1].bytes, vec![2]);
    assert_eq!(sorted[2].bytes, vec![1]);
}

#[test]
fn gallery_lists_every_input_in_order() {
    let cfg = GalleryConfig {
        thumbnail_height: 100,
        max_large_size: None,
        resize_include_panorama: false,
        download: false,
        skip_processing: false,
    };
    let inputs = vec![
        GalleryInput { name: "b.jpg".to_string(), bytes: jpeg_bytes(40, 30) },
        GalleryInput { name: "a.jpg".to_string(), bytes: jpeg_bytes(40, 30) },
        GalleryInput { name: "a.JPG".to_string(), bytes: jpeg_bytes(40, 30) },
    ];
    let run = build_gallery(inputs, &cfg).unwrap();
    let full: Vec<&str> = run.items.iter().map(|i| i.filename_full.as_str()).collect();
    assert_eq!(full, vec!["a.JPG", "a.jpg", "b.jpg"]);
    assert_eq!(run.items[0].filename_thumb, "a.thumb.jpg");
    assert_eq!(run.items[1].filename_thumb, "a.thumb.jpg");
    assert_eq!(run.items[2].filename_thumb, "b.thumb.jpg");
    assert!(run.archive.is_none());
    assert_eq!(run.processed.len(), 3);
}

#[test]
fn empty_input_set_yields_empty_gallery() {
    let cfg = config(300);
    let run = build_gallery(Vec::new(), &cfg).unwrap();
    assert!(run.items.is_empty());
    assert!(run.processed.is_empty());
}

#[test]
fn archive_holds_one_entry_per_item_in_order() {
    let mut cfg = config(100);
    cfg.download = true;
    let small = jpeg_bytes(40, 30);
    let inputs = vec![
        GalleryInput { name: "b.jpg".to_string(), bytes: small.clone() },
        GalleryInput { name: "a.jpg".to_string(), bytes: jpeg_bytes(50, 20) },
    ];
    let run = build_gallery(inputs, &cfg).unwrap();
    let bytes = run.archive.unwrap().finish().unwrap();
    let mut zip = zip::ZipArchive::new(std::io::Cursor::new(bytes)).unwrap();
    assert_eq!(zip.len(), 2);
    let names: Vec<String> = (0..zip.len())
        .map(|i| zip.by_index(i).unwrap().name().to_string())
        .collect();
    assert_eq!(names, vec!["a.jpg", "b.jpg"]);
    let mut entry = zip.by_name("b.jpg").unwrap();
    let mut content = Vec::new();
    std::io::Read::read_to_end(&mut entry, &mut content).unwrap();
    assert_eq!(content, small);
}

#[test]
fn empty_archive_is_still_finalized() {
    let mut cfg = config(100);
    cfg.download = true;
    let run = build_gallery(Vec::new(), &cfg).unwrap();
    let bytes = run.archive.unwrap().finish().unwrap();
    let zip = zip::ZipArchive::new(std::io::Cursor::new(bytes)).unwrap();
    assert_eq!(zip.len(), 0);
}

#[test]
fn skip_mode_lists_items_but_archives_nothing() {
    let mut cfg = config(100);
    cfg.download = true;
    cfg.skip_processing = true;
    let inputs = vec![
        GalleryInput { name: "a.jpg".to_string(), bytes: Vec::new() },
        GalleryInput { name: "b.jpg".to_string(), bytes: Vec::new() },
    ];
    let run = build_gallery(inputs, &cfg).unwrap();
    assert_eq!(run.items.len(), 2);
    let bytes = run.archive.unwrap().finish().unwrap();
    let zip = zip::ZipArchive::new(std::io::Cursor::new(bytes)).unwrap();
    assert_eq!(zip.len(), 0);
}

#[test]
fn failing_input_aborts_the_whole_run() {
    let cfg = config(100);
    let inputs = vec![
        GalleryInput { name: "a.jpg".to_string(), bytes: jpeg_bytes(40, 30) },
        GalleryInput { name: "broken.jpg".to_string(), bytes: vec![9u8; 10] },
    ];
    let err = match build_gallery(inputs, &cfg) {
        Err(e) => e,
        Ok(_) => panic!("expected the run to abort"),
    };
    assert_eq!(err.message(), "could not decode image broken.jpg");
}

#[test]
fn first_orientation_value_wins() {
    let mut tiff: Vec<u8> = Vec::new();
    tiff.extend_from_slice(b"II*\0");
    tiff.extend_from_slice(&8u32.to_le_bytes());
    tiff.extend_from_slice(&1u16.to_le_bytes());
    tiff.extend_from_slice(&0x0112u16.to_le_bytes());
    tiff.extend_from_slice(&3u16.to_le_bytes());
    tiff.extend_from_slice(&2u32.to_le_bytes());
    tiff.extend_from_slice(&6u16.to_le_bytes());
    tiff.extend_from_slice(&1u16.to_le_bytes());
    tiff.extend_from_slice(&0u32.to_le_bytes());
    let mut bytes: Vec<u8> = vec![0xFF, 0xD8, 0xFF, 0xE1];
    let len = (2 + 6 + tiff.len()) as u16;
    bytes.extend_from_slice(&len.to_be_bytes());
    bytes.extend_from_slice(b"Exif\0\0");
    bytes.extend_from_slice(&tiff);
    bytes.extend_from_slice(&[0xFF, 0xD9]);
    assert_eq!(orientation_from_bytes(&bytes), Orientation::Deg270);
}

#[test]
fn archive_entry_of_resized_image_holds_resized_bytes() {
    let mut cfg = config(100);
    cfg.download = true;
    cfg.max_large_size = Some(30);
    let original = jpeg_bytes(40, 30);
    let inputs = vec![GalleryInput { name: "big.jpg".to_string(), bytes: original.clone() }];
    let run = build_gallery(inputs, &cfg).unwrap();
    let resized_bytes = match &run.processed[0].full {
        FullImage::Resized(e) => {
            assert_eq!((e.width, e.height), (30, 23));
            e.bytes.clone()
        }
        _ => panic!("expected a resized full image"),
    };
    let bytes = run.archive.unwrap().finish().unwrap();
    let mut zip = zip::ZipArchive::new(std::io::Cursor::new(bytes)).unwrap();
    let mut entry = zip.by_name("big.jpg").unwrap();
    let mut content = Vec::new();
    std::io::Read::read_to_end(&mut entry, &mut content).unwrap();
    assert_eq!(content, resized_bytes);
    assert_ne!(content, original);
}

#[test]
fn oversized_exempted_panorama_cannot_be_reencoded() {
    let img = image::DynamicImage::new_rgb8(70000, 10);
    let mut bytes = Vec::new();
    img.write_to(&mut std::io::Cursor::new(&mut bytes), image::ImageFormat::Png)
        .unwrap();
    let mut cfg = config(300);
    cfg.max_large_size = Some(100);
    let err = process_image("monster.jpg", &bytes, &cfg).unwrap_err();
    assert!(matches!(err, GalleryError::EncodeFailed { .. }));
    assert_eq!(err.message(), "could not encode image monster.jpg");
}

#[test]
fn duplicate_entry_names_abort_the_archive() {
    let mut cfg = config(100);
    cfg.download = true;
    let inputs = vec![
        GalleryInput { name: "a.jpg".to_string(), bytes: jpeg_bytes(20, 10) },
        GalleryInput { name: "a.jpg".to_string(), bytes: jpeg_bytes(30, 15) },
    ];
    let err = match build_gallery(inputs, &cfg) {
        Err(e) => e,
        Ok(_) => panic!("expected the duplicate entry to abort the run"),
    };
    assert!(matches!(err, GalleryError::ArchiveWrite { .. }));
    assert_eq!(err.message(), "could not write archive entry for a.jpg");
}
