use crate::cfa::CHANNELS;
use crate::decoded::{DecodedImage, ImageView};
use crate::detector::{classify, detect_image_type, ImageType, HEADER_LEN};
use crate::error::LoadError;
use crate::processors::ImageProcessor;
use vstd::prelude::*;

verus! {

/// Files longer than this many bytes are better mapped into memory than read
/// into a buffer. How the bytes are brought in makes no difference to what
/// is decoded from them.
pub const MMAP_THRESHOLD: u64 = 32 * 1024 * 1024;

/// Whether a file of `len` bytes is better mapped than read.
pub fn prefers_mapping(len: u64) -> (r: bool)
    ensures
        r == (len > MMAP_THRESHOLD),
{
    len > MMAP_THRESHOLD
}

/// Whether the type is one that the general codec decodes.
pub open spec fn is_standard(image_type: ImageType) -> bool {
    image_type is Jpeg || image_type is Png || image_type is Gif || image_type is WebP
        || image_type is Tiff
}

#[verifier::external_type_specification]
#[verifier::external_body]
pub struct ExCodecError(image::ImageError);

/// What the general codec makes of the bytes of a file: width, height and
/// the pixels as packed RGB, or `None` where it rejects them.
pub uninterp spec fn codec_pixels(data: Seq<u8>) -> Option<(nat, nat, Seq<u8>)>;

/// Calls `image::load_from_memory`, which guesses the container from its
/// content, and has the result converted to 8-bit RGB with `to_rgb8`.
/// Trusted: the answer depends on the bytes alone, so it is `codec_pixels`
/// of them; nothing is said about what that answer is.
#[verifier::external_body]
fn codec_decode(data: &[u8]) -> (r: Result<(u32, u32, Vec<u8>), image::ImageError>)
    ensures
        r matches Ok(p) ==> codec_pixels(data@) == Some((p.0 as nat, p.1 as nat, p.2@)),
        r is Err ==> codec_pixels(data@) is None,
{
    let rgb = image::load_from_memory(data)?.to_rgb8();
    Ok((rgb.width(), rgb.height(), rgb.into_raw()))
}

/// The image that the codec's answer makes: its pixels, provided they are
/// three bytes for each pixel of the size it reports.
pub open spec fn standard_image(answer: Option<(nat, nat, Seq<u8>)>) -> Result<
    ImageView,
    LoadError,
> {
    match answer {
        Some((width, height, pixels)) => if pixels.len() == width * height * CHANNELS {
            Ok(ImageView { width, height, pixels })
        } else {
            Err(LoadError::Decode)
        },
        None => Err(LoadError::Decode),
    }
}

/// What loading a file with the bytes `data` through the codec gives.
pub open spec fn standard_loaded(data: Seq<u8>) -> Result<ImageView, LoadError> {
    standard_image(codec_pixels(data))
}

/// Wraps what the codec reported as an image.
pub fn image_from_codec(width: u32, height: u32, pixels: Vec<u8>) -> (r: Result<
    DecodedImage,
    LoadError,
>)
    ensures
        crate::decoded::outcome(r) == standard_image(Some((width as nat, height as nat, pixels@))),
{
    match DecodedImage::from_raw(width as usize, height as usize, pixels) {
        Some(image) => Ok(image),
        None => Err(LoadError::Decode),
    }
}

/// Decodes the common image containers.
#[derive(Debug, Clone, Copy)]
pub struct StandardProcessor {}

impl StandardProcessor {
    pub fn new() -> (r: StandardProcessor) {
        StandardProcessor {  }
    }
}

impl ImageProcessor for StandardProcessor {
    open spec fn handles(&self, data: Seq<u8>) -> bool {
        data.len() >= HEADER_LEN && is_standard(classify(data))
    }

    open spec fn loaded(&self, data: Seq<u8>) -> Result<ImageView, LoadError> {
        standard_loaded(data)
    }

    fn can_handle(&self, data: &[u8]) -> (r: bool) {
        match detect_image_type(data) {
            Ok(image_type) => match image_type {
                ImageType::Jpeg
                | ImageType::Png
                | ImageType::Gif
                | ImageType::WebP
                | ImageType::Tiff => true,
                _ => false,
            },
            Err(_) => false,
        }
    }

    fn load_image(&self, data: &[u8]) -> (r: Result<DecodedImage, LoadError>) {
        match codec_decode(data) {
            Ok((width, height, pixels)) => image_from_codec(width, height, pixels),
            Err(_) => Err(LoadError::Decode),
        }
    }
}

} // verus!
