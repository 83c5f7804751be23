use crate::cfa::CHANNELS;
use crate::error::LoadError;
use vstd::prelude::*;

verus! {

/// What a decoded image is: its size and its pixels, three bytes each in the
/// order red, green, blue, row by row with no padding.
pub struct ImageView {
    pub width: nat,
    pub height: nat,
    pub pixels: Seq<u8>,
}

/// A decoded image. The buffer always holds exactly three bytes per pixel.
#[derive(Debug)]
pub struct DecodedImage {
    width: usize,
    height: usize,
    buffer: Vec<u8>,
}

impl View for DecodedImage {
    type V = ImageView;

    closed spec fn view(&self) -> ImageView {
        ImageView {
            width: self.width as nat,
            height: self.height as nat,
            pixels: self.buffer@,
        }
    }
}

impl Clone for DecodedImage {
    fn clone(&self) -> (r: Self)
        ensures
            r@ == self@,
    {
        proof {
            use_type_invariant(self);
        }
        DecodedImage { width: self.width, height: self.height, buffer: self.buffer.clone() }
    }
}

impl DecodedImage {
    #[verifier::type_invariant]
    spec fn packed(self) -> bool {
        self.buffer@.len() == self.width * self.height * CHANNELS
    }

    /// Wraps a buffer of packed pixels; `None` unless it holds exactly three
    /// bytes for each of the `width * height` pixels.
    pub fn from_raw(width: usize, height: usize, buffer: Vec<u8>) -> (r: Option<DecodedImage>)
        ensures
            (r is Some) == (buffer@.len() == width * height * CHANNELS),
            r matches Some(image) ==> image@ == (ImageView {
                width: width as nat,
                height: height as nat,
                pixels: buffer@,
            }),
    {
        let count: usize = buffer.len();
        match width.checked_mul(height) {
            None => None,
            Some(pixels) => match pixels.checked_mul(CHANNELS) {
                None => None,
                Some(bytes) => if count == bytes {
                    Some(DecodedImage { width, height, buffer })
                } else {
                    None
                },
            },
        }
    }

    pub fn width(&self) -> (r: usize)
        ensures
            r == self@.width,
    {
        self.width
    }

    pub fn height(&self) -> (r: usize)
        ensures
            r == self@.height,
    {
        self.height
    }

    /// The packed pixels.
    pub fn as_bytes(&self) -> (r: &Vec<u8>)
        ensures
            r@ == self@.pixels,
            r@.len() == self@.width * self@.height * CHANNELS,
    {
        proof {
            use_type_invariant(self);
        }
        &self.buffer
    }

    /// Gives up the image for its packed pixels.
    pub fn into_raw(self) -> (r: Vec<u8>)
        ensures
            r@ == self@.pixels,
            r@.len() == self@.width * self@.height * CHANNELS,
    {
        proof {
            use_type_invariant(&self);
        }
        self.buffer
    }
}

/// What a result holds, as plain values.
pub open spec fn outcome(r: Result<DecodedImage, LoadError>) -> Result<ImageView, LoadError> {
    match r {
        Ok(image) => Ok(image@),
        Err(e) => Err(e),
    }
}

} // verus!
