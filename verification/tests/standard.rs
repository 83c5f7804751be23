use photoflow::error::LoadError;
use photoflow::processors::{decode, get_processor, ImageProcessor, Processor};
use photoflow::standard::{image_from_codec, prefers_mapping, StandardProcessor, MMAP_THRESHOLD};
use std::io::Cursor;

fn png(width: u32, height: u32, pixels: Vec<u8>) -> Vec<u8> {
    let image = image::RgbImage::from_raw(width, height, pixels).unwrap();
    let mut out = Cursor::new(Vec::new());
    image::DynamicImage::ImageRgb8(image).write_to(&mut out, image::ImageOutputFormat::Png).unwrap();
    out.into_inner()
}

fn gray_png(width: u32, height: u32, pixels: Vec<u8>) -> Vec<u8> {
    let image = image::GrayImage::from_raw(width, height, pixels).unwrap();
    let mut out = Cursor::new(Vec::new());
    image::DynamicImage::ImageLuma8(image).write_to(&mut out, image::ImageOutputFormat::Png).unwrap();
    out.into_inner()
}

fn with_header(prefix: &[u8]) -> Vec<u8> {
    let mut data = prefix.to_vec();
    data.resize(32, 0);
    data
}

#[test]
fn decodes_a_png() {
    let pixels: Vec<u8> = (0..3 * 2 * 3).map(|k| (k * 13 + 5) as u8).collect();
    let file = png(3, 2, pixels.clone());
    let image = StandardProcessor::new().load_image(&file).unwrap();
    assert_eq!((image.width(), image.height()), (3, 2));
    assert_eq!(image.as_bytes(), &pixels);
    assert_eq!(image.as_bytes().len(), 3 * 2 * 3);
    assert_ne!(image.as_bytes(), &file[..18]);
}

#[test]
fn decodes_a_gif_and_a_tiff() {
    let pixels: Vec<u8> = vec![255, 0, 0, 0, 255, 0, 0, 0, 255, 255, 255, 255];
    let source = image::DynamicImage::ImageRgb8(
        image::RgbImage::from_raw(2, 2, pixels.clone()).unwrap(),
    );
    for format in [image::ImageOutputFormat::Gif, image::ImageOutputFormat::Tiff] {
        let mut out = Cursor::new(Vec::new());
        source.write_to(&mut out, format).unwrap();
        let image = StandardProcessor::new().load_image(&out.into_inner()).unwrap();
        assert_eq!((image.width(), image.height()), (2, 2));
        assert_eq!(image.as_bytes(), &pixels);
    }
}

#[test]
fn gray_pixels_are_spread_over_the_channels() {
    let file = gray_png(2, 2, vec![0, 100, 200, 255]);
    let image = StandardProcessor::new().load_image(&file).unwrap();
    assert_eq!(image.as_bytes(), &[0, 0, 0, 100, 100, 100, 200, 200, 200, 255, 255, 255]);
}

#[test]
fn rejected_bytes_are_a_decode_error() {
    let p = StandardProcessor::new();
    assert_eq!(p.load_image(&[]).unwrap_err(), LoadError::Decode);
    assert_eq!(p.load_image(&[0u8; 100]).unwrap_err(), LoadError::Decode);
    let mut cut = png(4, 4, vec![7; 48]);
    cut.truncate(40);
    assert_eq!(p.load_image(&cut).unwrap_err(), LoadError::Decode);
}

#[test]
fn codec_answer_must_fit_its_size() {
    assert!(image_from_codec(2, 2, vec![0; 12]).is_ok());
    assert_eq!(image_from_codec(2, 2, vec![0; 11]).unwrap_err(), LoadError::Decode);
    assert_eq!(image_from_codec(2, 2, vec![0; 13]).unwrap_err(), LoadError::Decode);
    assert_eq!(image_from_codec(u32::MAX, u32::MAX, vec![0; 3]).unwrap_err(), LoadError::Decode);
    let empty = image_from_codec(0, 5, Vec::new()).unwrap();
    assert_eq!((empty.width(), empty.height(), empty.as_bytes().len()), (0, 5, 0));
}

#[test]
fn standard_processor_handles_the_common_containers() {
    let p = StandardProcessor::new();
    assert!(p.can_handle(&with_header(&[0xFF, 0xD8])));
    assert!(p.can_handle(&with_header(b"\x89PNG\r\n\x1A\n")));
    assert!(p.can_handle(&with_header(b"GIF89a")));
    assert!(p.can_handle(&with_header(b"RIFF\0\0\0\0WEBP")));
    assert!(p.can_handle(&with_header(b"II*\x00")));
    assert!(!p.can_handle(&with_header(b"FUJI")));
    assert!(!p.can_handle(&with_header(b"")));
    assert!(!p.can_handle(&[0xFF, 0xD8]));
}

#[test]
fn router_sends_raw_headers_to_the_raw_processor() {
    assert!(matches!(get_processor(&with_header(b"FUJI")), Processor::Raw(_)));
    assert!(matches!(get_processor(&with_header(b"SONY")), Processor::Raw(_)));
    assert!(matches!(get_processor(&with_header(b"\0\0\0\0\0\0\0\0CR\x02")), Processor::Raw(_)));
    assert!(matches!(get_processor(&with_header(b"\0\0\0DNGK")), Processor::Raw(_)));
    assert!(matches!(get_processor(&with_header(&[0xFF, 0xD8])), Processor::Standard(_)));
    assert!(matches!(get_processor(&with_header(b"II*\x00")), Processor::Standard(_)));
    assert!(matches!(get_processor(&with_header(b"")), Processor::Standard(_)));
}

#[test]
fn router_falls_back_to_the_standard_processor() {
    assert!(matches!(get_processor(&[]), Processor::Standard(_)));
    assert!(matches!(get_processor(b"FUJI"), Processor::Standard(_)));
    assert_eq!(decode(b"FUJI").unwrap_err(), LoadError::Decode);
    assert_eq!(decode(&[]).unwrap_err(), LoadError::Decode);
}

#[test]
fn router_decodes_by_the_header() {
    let pixels: Vec<u8> = (0..48).collect();
    let file = png(4, 4, pixels.clone());
    assert_eq!(decode(&file).unwrap().as_bytes(), &pixels);
    let chosen = get_processor(&file);
    assert!(chosen.can_handle(&file));
    assert_eq!(chosen.load_image(&file).unwrap().as_bytes(), &pixels);
    assert_eq!(decode(&with_header(b"FUJI")).unwrap_err(), LoadError::Decode);
    assert!(get_processor(&with_header(b"FUJI")).can_handle(&with_header(b"FUJI")));
}

#[test]
fn mapping_is_for_files_over_the_threshold() {
    assert_eq!(MMAP_THRESHOLD, 33_554_432);
    assert!(!prefers_mapping(0));
    assert!(!prefers_mapping(MMAP_THRESHOLD));
    assert!(prefers_mapping(MMAP_THRESHOLD + 1));
    assert!(prefers_mapping(u64::MAX));
}
