use crate::error::LoadError;
use vstd::prelude::*;

verus! {

/// Number of leading bytes that carry the magic numbers.
pub const HEADER_LEN: usize = 16;

/// Number of leading bytes searched for a manufacturer marker.
pub const SCAN_WINDOW: usize = 4096;

/// The kinds of image file that header inspection tells apart.
#[derive(Debug, Clone, Copy, PartialEq, Eq, Structural)]
pub enum ImageType {
    Jpeg,
    Png,
    Gif,
    Tiff,
    WebP,
    RawFuji,
    RawCanon,
    RawNikon,
    RawSony,
    RawPanasonic,
    RawGeneric,
    Unknown,
}

impl ImageType {
    /// Whether the type is one of the camera RAW families.
    pub open spec fn raw(self) -> bool {
        self is RawFuji || self is RawCanon || self is RawNikon || self is RawSony
            || self is RawPanasonic || self is RawGeneric
    }

    pub fn is_raw(&self) -> (r: bool)
        ensures
            r == self.raw(),
    {
        match self {
            ImageType::RawFuji
            | ImageType::RawCanon
            | ImageType::RawNikon
            | ImageType::RawSony
            | ImageType::RawPanasonic
            | ImageType::RawGeneric => true,
            _ => false,
        }
    }
}

/// `pat` occurs in `data` starting at offset `at`.
pub open spec fn matches_at(data: Seq<u8>, at: int, pat: Seq<u8>) -> bool {
    0 <= at && at + pat.len() <= data.len() && data.subrange(at, at + pat.len()) == pat
}

/// `pat` occurs somewhere in `data`.
pub open spec fn contains(data: Seq<u8>, pat: Seq<u8>) -> bool {
    exists|at: int| #[trigger] matches_at(data, at, pat)
}

pub open spec fn jpeg_magic() -> Seq<u8> {
    seq![0xFFu8, 0xD8u8]
}

pub open spec fn png_signature() -> Seq<u8> {
    seq![0x89u8, 0x50u8, 0x4Eu8, 0x47u8, 0x0Du8, 0x0Au8, 0x1Au8, 0x0Au8]
}

/// ASCII `GIF`.
pub open spec fn gif_magic() -> Seq<u8> {
    seq![0x47u8, 0x49u8, 0x46u8]
}

/// ASCII `RIFF`.
pub open spec fn riff_magic() -> Seq<u8> {
    seq![0x52u8, 0x49u8, 0x46u8, 0x46u8]
}

/// ASCII `WEBP`.
pub open spec fn webp_magic() -> Seq<u8> {
    seq![0x57u8, 0x45u8, 0x42u8, 0x50u8]
}

/// `MM\0*`: TIFF, big-endian.
pub open spec fn tiff_be_magic() -> Seq<u8> {
    seq![0x4Du8, 0x4Du8, 0x00u8, 0x2Au8]
}

/// `II*\0`: TIFF, little-endian.
pub open spec fn tiff_le_magic() -> Seq<u8> {
    seq![0x49u8, 0x49u8, 0x2Au8, 0x00u8]
}

/// ASCII `FUJI`.
pub open spec fn fuji_magic() -> Seq<u8> {
    seq![0x46u8, 0x55u8, 0x4Au8, 0x49u8]
}

/// `CR\x02`.
pub open spec fn canon_v2_magic() -> Seq<u8> {
    seq![0x43u8, 0x52u8, 0x02u8]
}

/// `CR\x03`.
pub open spec fn canon_v3_magic() -> Seq<u8> {
    seq![0x43u8, 0x52u8, 0x03u8]
}

/// ASCII `NIKON`.
pub open spec fn nikon_marker() -> Seq<u8> {
    seq![0x4Eu8, 0x49u8, 0x4Bu8, 0x4Fu8, 0x4Eu8]
}

/// ASCII `SONY`.
pub open spec fn sony_magic() -> Seq<u8> {
    seq![0x53u8, 0x4Fu8, 0x4Eu8, 0x59u8]
}

/// `IIU\0`.
pub open spec fn panasonic_magic() -> Seq<u8> {
    seq![0x49u8, 0x49u8, 0x55u8, 0x00u8]
}

/// ASCII `CIFF`.
pub open spec fn ciff_marker() -> Seq<u8> {
    seq![0x43u8, 0x49u8, 0x46u8, 0x46u8]
}

/// ASCII `HEIC`.
pub open spec fn heic_marker() -> Seq<u8> {
    seq![0x48u8, 0x45u8, 0x49u8, 0x43u8]
}

/// ASCII `DNGK`.
pub open spec fn dngk_marker() -> Seq<u8> {
    seq![0x44u8, 0x4Eu8, 0x47u8, 0x4Bu8]
}

/// ASCII `EPAK`.
pub open spec fn epak_marker() -> Seq<u8> {
    seq![0x45u8, 0x50u8, 0x41u8, 0x4Bu8]
}

/// The header starts with either TIFF byte-order mark.
pub open spec fn has_tiff_magic(header: Seq<u8>) -> bool {
    matches_at(header, 0, tiff_be_magic()) || matches_at(header, 0, tiff_le_magic())
}

/// The header holds one of the markers of the less common RAW containers.
pub open spec fn has_generic_raw_marker(header: Seq<u8>) -> bool {
    contains(header, ciff_marker()) || contains(header, heic_marker())
        || contains(header, dngk_marker()) || contains(header, epak_marker())
}

/// The part of a file that is searched for a manufacturer marker.
pub open spec fn scan_window(data: Seq<u8>) -> Seq<u8> {
    if data.len() <= SCAN_WINDOW {
        data
    } else {
        data.take(SCAN_WINDOW as int)
    }
}

/// The type of a file whose leading bytes are `data`. The rules are tried in
/// the order written and the first that applies decides. A TIFF byte-order
/// mark gives `Tiff` unless the search window names Nikon.
pub open spec fn classify(data: Seq<u8>) -> ImageType
    recommends
        data.len() >= HEADER_LEN,
{
    let header = data.take(HEADER_LEN as int);
    if matches_at(header, 0, jpeg_magic()) {
        ImageType::Jpeg
    } else if matches_at(header, 0, png_signature()) {
        ImageType::Png
    } else if matches_at(header, 0, gif_magic()) {
        ImageType::Gif
    } else if matches_at(header, 0, riff_magic()) && matches_at(header, 8, webp_magic()) {
        ImageType::WebP
    } else if has_tiff_magic(header) {
        if contains(scan_window(data), nikon_marker()) {
            ImageType::RawNikon
        } else {
            ImageType::Tiff
        }
    } else if matches_at(header, 0, fuji_magic()) {
        ImageType::RawFuji
    } else if matches_at(header, 8, canon_v2_magic()) || matches_at(header, 8, canon_v3_magic()) {
        ImageType::RawCanon
    } else if matches_at(header, 0, sony_magic()) {
        ImageType::RawSony
    } else if matches_at(header, 0, panasonic_magic()) {
        ImageType::RawPanasonic
    } else if has_generic_raw_marker(header) {
        ImageType::RawGeneric
    } else {
        ImageType::Unknown
    }
}

/// Compares the bytes of `data[..limit]` at `at` with `pat`.
fn starts_at(data: &[u8], limit: usize, at: usize, pat: &[u8]) -> (r: bool)
    requires
        limit <= data@.len(),
    ensures
        r == matches_at(data@.take(limit as int), at as int, pat@),
{
    if pat.len() > limit || at > limit - pat.len() {
        return false;
    }
    let ghost window = data@.take(limit as int);
    let mut i: usize = 0;
    while i < pat.len()
        invariant
            i <= pat@.len(),
            at + pat@.len() <= limit <= data@.len(),
            window == data@.take(limit as int),
            forall|j: int| 0 <= j < i ==> window[at + j] == pat@[j],
        decreases pat@.len() - i,
    {
        if data[at + i] != pat[i] {
            proof {
                let sub = window.subrange(at as int, at + pat@.len());
                assert(sub[i as int] == window[at + i]);
            }
            return false;
        }
        i += 1;
    }
    proof {
        assert(window.subrange(at as int, at + pat@.len()) =~= pat@);
    }
    true
}

/// Searches `data[..limit]` for `pat`.
fn find(data: &[u8], limit: usize, pat: &[u8]) -> (r: bool)
    requires
        limit <= data@.len(),
    ensures
        r == contains(data@.take(limit as int), pat@),
{
    let ghost window = data@.take(limit as int);
    if pat.len() > limit {
        proof {
            assert forall|at: int| !#[trigger] matches_at(window, at, pat@) by {}
        }
        return false;
    }
    if pat.len() == 0 {
        proof {
            assert(window.subrange(0, 0) =~= pat@);
            assert(matches_at(window, 0, pat@));
        }
        return true;
    }
    let last: usize = limit - pat.len();
    let mut at: usize = 0;
    while at <= last
        invariant
            at <= last + 1,
            pat@.len() > 0,
            last + pat@.len() == limit <= data@.len(),
            window == data@.take(limit as int),
            forall|k: int| 0 <= k < at ==> !#[trigger] matches_at(window, k, pat@),
        decreases last + 1 - at,
    {
        if starts_at(data, limit, at, pat) {
            return true;
        }
        at += 1;
    }
    proof {
        assert forall|k: int| !#[trigger] matches_at(window, k, pat@) by {}
    }
    false
}

/// Classifies a file by its leading bytes. `data` holds the file from its
/// first byte on; bytes past the search window are not looked at. Fewer than
/// `HEADER_LEN` bytes cannot be classified.
pub fn detect_image_type(data: &[u8]) -> (r: Result<ImageType, LoadError>)
    ensures
        data@.len() < HEADER_LEN ==> r == Err::<ImageType, LoadError>(LoadError::Read),
        data@.len() >= HEADER_LEN ==> r == Ok::<ImageType, LoadError>(classify(data@)),
{
    if data.len() < HEADER_LEN {
        return Err(LoadError::Read);
    }
    let window: usize = if data.len() <= SCAN_WINDOW { data.len() } else { SCAN_WINDOW };
    proof {
        assert(data@.take(data@.len() as int) =~= data@);
    }
    let jpeg: [u8; 2] = [0xFF, 0xD8];
    let png: [u8; 8] = [0x89, 0x50, 0x4E, 0x47, 0x0D, 0x0A, 0x1A, 0x0A];
    let gif: [u8; 3] = [0x47, 0x49, 0x46];
    let riff: [u8; 4] = [0x52, 0x49, 0x46, 0x46];
    let webp: [u8; 4] = [0x57, 0x45, 0x42, 0x50];
    let tiff_be: [u8; 4] = [0x4D, 0x4D, 0x00, 0x2A];
    let tiff_le: [u8; 4] = [0x49, 0x49, 0x2A, 0x00];
    let fuji: [u8; 4] = [0x46, 0x55, 0x4A, 0x49];
    let canon_v2: [u8; 3] = [0x43, 0x52, 0x02];
    let canon_v3: [u8; 3] = [0x43, 0x52, 0x03];
    let nikon: [u8; 5] = [0x4E, 0x49, 0x4B, 0x4F, 0x4E];
    let sony: [u8; 4] = [0x53, 0x4F, 0x4E, 0x59];
    let panasonic: [u8; 4] = [0x49, 0x49, 0x55, 0x00];
    let ciff: [u8; 4] = [0x43, 0x49, 0x46, 0x46];
    let heic: [u8; 4] = [0x48, 0x45, 0x49, 0x43];
    let dngk: [u8; 4] = [0x44, 0x4E, 0x47, 0x4B];
    let epak: [u8; 4] = [0x45, 0x50, 0x41, 0x4B];
    proof {
        assert(jpeg@ =~= jpeg_magic());
        assert(png@ =~= png_signature());
        assert(gif@ =~= gif_magic());
        assert(riff@ =~= riff_magic());
        assert(webp@ =~= webp_magic());
        assert(tiff_be@ =~= tiff_be_magic());
        assert(tiff_le@ =~= tiff_le_magic());
        assert(fuji@ =~= fuji_magic());
        assert(canon_v2@ =~= canon_v2_magic());
        assert(canon_v3@ =~= canon_v3_magic());
        assert(nikon@ =~= nikon_marker());
        assert(sony@ =~= sony_magic());
        assert(panasonic@ =~= panasonic_magic());
        assert(ciff@ =~= ciff_marker());
        assert(heic@ =~= heic_marker());
        assert(dngk@ =~= dngk_marker());
        assert(epak@ =~= epak_marker());
    }
    if starts_at(data, HEADER_LEN, 0, jpeg.as_slice()) {
        Ok(ImageType::Jpeg)
    } else if starts_at(data, HEADER_LEN, 0, png.as_slice()) {
        Ok(ImageType::Png)
    } else if starts_at(data, HEADER_LEN, 0, gif.as_slice()) {
        Ok(ImageType::Gif)
    } else if starts_at(data, HEADER_LEN, 0, riff.as_slice()) && starts_at(
        data,
        HEADER_LEN,
        8,
        webp.as_slice(),
    ) {
        Ok(ImageType::WebP)
    } else if starts_at(data, HEADER_LEN, 0, tiff_be.as_slice()) || starts_at(
        data,
        HEADER_LEN,
        0,
        tiff_le.as_slice(),
    ) {
        if find(data, window, nikon.as_slice()) {
            Ok(ImageType::RawNikon)
        } else {
            Ok(ImageType::Tiff)
        }
    } else if starts_at(data, HEADER_LEN, 0, fuji.as_slice()) {
        Ok(ImageType::RawFuji)
    } else if starts_at(data, HEADER_LEN, 8, canon_v2.as_slice()) || starts_at(
        data,
        HEADER_LEN,
        8,
        canon_v3.as_slice(),
    ) {
        Ok(ImageType::RawCanon)
    } else if starts_at(data, HEADER_LEN, 0, sony.as_slice()) {
        Ok(ImageType::RawSony)
    } else if starts_at(data, HEADER_LEN, 0, panasonic.as_slice()) {
        Ok(ImageType::RawPanasonic)
    } else if find(data, HEADER_LEN, ciff.as_slice()) || find(data, HEADER_LEN, heic.as_slice())
        || find(data, HEADER_LEN, dngk.as_slice()) || find(data, HEADER_LEN, epak.as_slice()) {
        Ok(ImageType::RawGeneric)
    } else {
        Ok(ImageType::Unknown)
    }
}

} // verus!
