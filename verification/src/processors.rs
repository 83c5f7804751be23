use crate::cfa::CHANNELS;
use crate::decoded::{DecodedImage, ImageView};
use crate::detector::{classify, detect_image_type, HEADER_LEN};
use crate::error::LoadError;
use crate::decoded::outcome;
use crate::raw::RawProcessor;
use crate::standard::StandardProcessor;
use vstd::prelude::*;

verus! {

/// A way of turning the bytes of a file into pixels.
pub trait ImageProcessor {
    /// Whether a file with the leading bytes `data` is of a kind that this
    /// processor is meant for.
    spec fn handles(&self, data: Seq<u8>) -> bool;

    /// What the processor makes of a file with the bytes `data`.
    spec fn loaded(&self, data: Seq<u8>) -> Result<ImageView, LoadError>;

    fn can_handle(&self, data: &[u8]) -> (r: bool)
        ensures
            r == self.handles(data@),
    ;

    fn load_image(&self, data: &[u8]) -> (r: Result<DecodedImage, LoadError>)
        ensures
            outcome(r) == self.loaded(data@),
    ;
}

/// The processor chosen for a file.
#[derive(Debug, Clone, Copy)]
pub enum Processor {
    Standard(StandardProcessor),
    Raw(RawProcessor),
}

/// Whether a file with the leading bytes `data` goes to the RAW processor:
/// its type can be detected and is a RAW type. Files whose type cannot be
/// detected go to the standard processor with all the others.
pub open spec fn routes_to_raw(data: Seq<u8>) -> bool {
    data.len() >= HEADER_LEN && classify(data).raw()
}

/// What decoding a file with the bytes `data` gives, by the processor that
/// its header selects.
pub open spec fn decoded(data: Seq<u8>) -> Result<ImageView, LoadError> {
    if routes_to_raw(data) {
        crate::raw::raw_loaded(data)
    } else {
        crate::standard::standard_loaded(data)
    }
}

/// Whatever is decoded, by either processor, holds exactly three bytes for
/// each pixel of its size.
pub proof fn lemma_decoded_is_packed(data: Seq<u8>)
    ensures
        decoded(data) matches Ok(image) ==> image.pixels.len() == image.width * image.height
            * CHANNELS,
{
    if let Ok(image) = decoded(data) {
        assert(image.pixels.len() == image.width * image.height * CHANNELS) by (nonlinear_arith)
            requires
                image.pixels.len() == CHANNELS * (image.width * image.height) || image.pixels.len()
                    == image.width * image.height * CHANNELS,
        ;
    }
}

/// Chooses the processor for a file from its leading bytes.
pub fn get_processor(data: &[u8]) -> (r: Processor)
    ensures
        r is Raw == routes_to_raw(data@),
{
    match detect_image_type(data) {
        Ok(image_type) => {
            if image_type.is_raw() {
                Processor::Raw(RawProcessor::new())
            } else {
                Processor::Standard(StandardProcessor::new())
            }
        },
        Err(_) => Processor::Standard(StandardProcessor::new()),
    }
}

impl ImageProcessor for Processor {
    open spec fn handles(&self, data: Seq<u8>) -> bool {
        match self {
            Processor::Standard(p) => p.handles(data),
            Processor::Raw(p) => p.handles(data),
        }
    }

    open spec fn loaded(&self, data: Seq<u8>) -> Result<ImageView, LoadError> {
        match self {
            Processor::Standard(p) => p.loaded(data),
            Processor::Raw(p) => p.loaded(data),
        }
    }

    fn can_handle(&self, data: &[u8]) -> (r: bool) {
        match self {
            Processor::Standard(p) => p.can_handle(data),
            Processor::Raw(p) => p.can_handle(data),
        }
    }

    fn load_image(&self, data: &[u8]) -> (r: Result<DecodedImage, LoadError>) {
        match self {
            Processor::Standard(p) => p.load_image(data),
            Processor::Raw(p) => p.load_image(data),
        }
    }
}

/// Decodes a file with the processor that its header selects.
pub fn decode(data: &[u8]) -> (r: Result<DecodedImage, LoadError>)
    ensures
        outcome(r) == decoded(data@),
{
    get_processor(data).load_image(data)
}

} // verus!
