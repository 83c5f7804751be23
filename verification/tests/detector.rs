use photoflow::detector::{detect_image_type, ImageType};
use photoflow::error::LoadError;

fn header(prefix: &[u8]) -> Vec<u8> {
    let mut data = prefix.to_vec();
    while data.len() < 16 {
        data.push(0);
    }
    data
}

fn with_at(offset: usize, marker: &[u8], len: usize) -> Vec<u8> {
    let mut data = vec![0u8; len];
    data[offset..offset + marker.len()].copy_from_slice(marker);
    data
}

#[test]
fn jpeg_magic_is_detected() {
    assert_eq!(detect_image_type(&header(&[0xFF, 0xD8, 0xFF, 0xE0])), Ok(ImageType::Jpeg));
}

#[test]
fn png_signature_is_detected() {
    assert_eq!(detect_image_type(&header(b"\x89PNG\r\n\x1A\n")), Ok(ImageType::Png));
}

#[test]
fn png_signature_must_be_whole() {
    assert_eq!(detect_image_type(&header(b"\x89PNG\r\n\x1A")), Ok(ImageType::Unknown));
}

#[test]
fn gif_magic_is_detected() {
    assert_eq!(detect_image_type(&header(b"GIF89a")), Ok(ImageType::Gif));
    assert_eq!(detect_image_type(&header(b"GIF87a")), Ok(ImageType::Gif));
}

#[test]
fn webp_needs_both_markers() {
    let mut data = header(b"RIFF");
    data[8..12].copy_from_slice(b"WEBP");
    assert_eq!(detect_image_type(&data), Ok(ImageType::WebP));
    assert_eq!(detect_image_type(&header(b"RIFF")), Ok(ImageType::Unknown));
}

#[test]
fn tiff_magic_in_both_byte_orders() {
    assert_eq!(detect_image_type(&header(b"MM\x00*")), Ok(ImageType::Tiff));
    assert_eq!(detect_image_type(&header(b"II*\x00")), Ok(ImageType::Tiff));
}

#[test]
fn nikon_marker_overrides_tiff() {
    let mut data = with_at(200, b"NIKON", 5000);
    data[0..4].copy_from_slice(b"II*\x00");
    assert_eq!(detect_image_type(&data), Ok(ImageType::RawNikon));
    let mut short = with_at(20, b"NIKON CORPORATION", 64);
    short[0..4].copy_from_slice(b"MM\x00*");
    assert_eq!(detect_image_type(&short), Ok(ImageType::RawNikon));
}

#[test]
fn nikon_marker_at_the_end_of_the_window_counts() {
    let mut data = with_at(4091, b"NIKON", 5000);
    data[0..4].copy_from_slice(b"II*\x00");
    assert_eq!(detect_image_type(&data), Ok(ImageType::RawNikon));
}

#[test]
fn nikon_marker_past_the_window_is_not_seen() {
    let mut data = with_at(4092, b"NIKON", 5000);
    data[0..4].copy_from_slice(b"II*\x00");
    assert_eq!(detect_image_type(&data), Ok(ImageType::Tiff));
    let mut far = with_at(4096, b"NIKON", 5000);
    far[0..4].copy_from_slice(b"II*\x00");
    assert_eq!(detect_image_type(&far), Ok(ImageType::Tiff));
}

#[test]
fn nikon_marker_without_tiff_magic_is_ignored() {
    assert_eq!(detect_image_type(&with_at(100, b"NIKON", 400)), Ok(ImageType::Unknown));
}

#[test]
fn four_letters_of_the_nikon_marker_are_not_enough() {
    let mut data = with_at(100, b"NIKO", 400);
    data[0..4].copy_from_slice(b"II*\x00");
    assert_eq!(detect_image_type(&data), Ok(ImageType::Tiff));
}

#[test]
fn fuji_magic_is_detected() {
    assert_eq!(detect_image_type(&header(b"FUJIFILMCCD-RAW ")), Ok(ImageType::RawFuji));
}

#[test]
fn canon_marker_at_offset_eight() {
    assert_eq!(detect_image_type(&with_at(8, b"CR\x02", 16)), Ok(ImageType::RawCanon));
    assert_eq!(detect_image_type(&with_at(8, b"CR\x03", 16)), Ok(ImageType::RawCanon));
    assert_eq!(detect_image_type(&with_at(8, b"CR\x04", 16)), Ok(ImageType::Unknown));
    assert_eq!(detect_image_type(&with_at(7, b"CR\x02", 16)), Ok(ImageType::Unknown));
}

#[test]
fn tiff_magic_decides_before_the_canon_marker() {
    let mut data = with_at(8, b"CR\x02", 16);
    data[0..4].copy_from_slice(b"II*\x00");
    assert_eq!(detect_image_type(&data), Ok(ImageType::Tiff));
}

#[test]
fn sony_and_panasonic_magic() {
    assert_eq!(detect_image_type(&header(b"SONY")), Ok(ImageType::RawSony));
    assert_eq!(detect_image_type(&header(b"IIU\x00")), Ok(ImageType::RawPanasonic));
}

#[test]
fn generic_markers_anywhere_in_the_header() {
    assert_eq!(detect_image_type(&with_at(0, b"CIFF", 16)), Ok(ImageType::RawGeneric));
    assert_eq!(detect_image_type(&with_at(6, b"CIFF", 16)), Ok(ImageType::RawGeneric));
    assert_eq!(detect_image_type(&with_at(12, b"HEIC", 16)), Ok(ImageType::RawGeneric));
    assert_eq!(detect_image_type(&with_at(3, b"DNGK", 16)), Ok(ImageType::RawGeneric));
    assert_eq!(detect_image_type(&with_at(5, b"EPAK", 16)), Ok(ImageType::RawGeneric));
}

#[test]
fn generic_marker_past_the_header_is_not_seen() {
    assert_eq!(detect_image_type(&with_at(13, b"CIFF", 32)), Ok(ImageType::Unknown));
    assert_eq!(detect_image_type(&with_at(16, b"HEIC", 32)), Ok(ImageType::Unknown));
}

#[test]
fn earlier_rules_win() {
    let mut data = with_at(8, b"CIFF", 16);
    data[0] = 0xFF;
    data[1] = 0xD8;
    assert_eq!(detect_image_type(&data), Ok(ImageType::Jpeg));
    let mut fuji = with_at(8, b"CR\x02", 16);
    fuji[0..4].copy_from_slice(b"FUJI");
    assert_eq!(detect_image_type(&fuji), Ok(ImageType::RawFuji));
}

#[test]
fn unknown_is_not_an_error() {
    assert_eq!(detect_image_type(&[0u8; 16]), Ok(ImageType::Unknown));
    assert_eq!(detect_image_type(&[0x41u8; 64]), Ok(ImageType::Unknown));
}

#[test]
fn truncated_header_is_a_read_error() {
    assert_eq!(detect_image_type(&[]), Err(LoadError::Read));
    assert_eq!(detect_image_type(&[0xFF, 0xD8, 0xFF]), Err(LoadError::Read));
    assert_eq!(detect_image_type(&[0u8; 15]), Err(LoadError::Read));
}

#[test]
fn raw_types_are_raw() {
    let raw = [
        ImageType::RawFuji,
        ImageType::RawCanon,
        ImageType::RawNikon,
        ImageType::RawSony,
        ImageType::RawPanasonic,
        ImageType::RawGeneric,
    ];
    for t in raw {
        assert!(t.is_raw());
    }
    let other = [
        ImageType::Jpeg,
        ImageType::Png,
        ImageType::Gif,
        ImageType::Tiff,
        ImageType::WebP,
        ImageType::Unknown,
    ];
    for t in other {
        assert!(!t.is_raw());
    }
}
