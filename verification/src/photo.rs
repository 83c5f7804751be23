use crate::decoded::{DecodedImage, ImageView};
use crate::error::LoadError;
use crate::extension::{kind_by_extension, kind_of, FileKind};
use crate::processors::ImageProcessor;
use crate::decoded::outcome;
use crate::raw::{raw_loaded, RawProcessor};
use crate::sensor::Ratio;
use crate::standard::{standard_loaded, StandardProcessor};
use exif::{Context, Reader, Value};
use std::io::Cursor;
use vstd::prelude::*;
use vstd::string::StringExecFns;

verus! {

/// What the camera recorded about a picture. Every entry may be missing.
/// The exposure time is written as `numerator/denominator`; the f-number and
/// the focal length are kept as the fractions they were recorded as.
#[derive(Debug, Clone)]
pub struct ExifData {
    pub make: Option<String>,
    pub model: Option<String>,
    pub exposure_time: Option<String>,
    pub f_number: Option<Ratio>,
    pub iso: Option<u32>,
    pub focal_length: Option<Ratio>,
    pub datetime: Option<String>,
}

/// `ExifData` as plain values.
pub struct ExifView {
    pub make: Option<Seq<char>>,
    pub model: Option<Seq<char>>,
    pub exposure_time: Option<Seq<char>>,
    pub f_number: Option<Ratio>,
    pub iso: Option<u32>,
    pub focal_length: Option<Ratio>,
    pub datetime: Option<Seq<char>>,
}

/// The characters of a text that may be missing.
pub open spec fn text_view(text: Option<String>) -> Option<Seq<char>> {
    match text {
        Some(s) => Some(s@),
        None => None,
    }
}

impl View for ExifData {
    type V = ExifView;

    open spec fn view(&self) -> ExifView {
        ExifView {
            make: text_view(self.make),
            model: text_view(self.model),
            exposure_time: text_view(self.exposure_time),
            f_number: self.f_number,
            iso: self.iso,
            focal_length: self.focal_length,
            datetime: text_view(self.datetime),
        }
    }
}

impl ExifData {
    /// Metadata with every entry missing.
    pub fn empty() -> (r: ExifData)
        ensures
            r@ == ExifView::empty(),
    {
        ExifData {
            make: None,
            model: None,
            exposure_time: None,
            f_number: None,
            iso: None,
            focal_length: None,
            datetime: None,
        }
    }
}

impl ExifView {
    pub open spec fn empty() -> ExifView {
        ExifView {
            make: None,
            model: None,
            exposure_time: None,
            f_number: None,
            iso: None,
            focal_length: None,
            datetime: None,
        }
    }
}

/// The part of the metadata that a tag belongs to.
#[derive(Debug, Clone, Copy, PartialEq, Eq, Structural)]
pub enum TagGroup {
    Tiff,
    Exif,
    Gps,
    Interop,
    Other,
}

/// One metadata field as the metadata reader hands it out: its tag, its
/// value as text, and the numbers of its value where the value is made of
/// fractions, each a numerator and a denominator, or of 16-bit numbers.
#[derive(Debug, Clone)]
pub struct ExifField {
    pub group: TagGroup,
    pub number: u16,
    pub text: String,
    pub rationals: Option<Vec<(u32, u32)>>,
    pub shorts: Option<Vec<u16>>,
}

/// `ExifField` as plain values.
pub struct ExifFieldView {
    pub group: TagGroup,
    pub number: u16,
    pub text: Seq<char>,
    pub rationals: Option<Seq<(u32, u32)>>,
    pub shorts: Option<Seq<u16>>,
}

/// The first fraction of a field's value, if the value is made of fractions
/// and holds one.
pub open spec fn first_fraction(field: ExifFieldView) -> Option<Ratio> {
    match first_of(field.rationals) {
        Some(pair) => Some(Ratio { num: pair.0, den: pair.1 }),
        None => None,
    }
}

/// The first of the numbers, if there are numbers and the list is not empty.
pub open spec fn first_of<T>(numbers: Option<Seq<T>>) -> Option<T> {
    match numbers {
        Some(list) => if list.len() > 0 {
            Some(list[0])
        } else {
            None
        },
        None => None,
    }
}

impl View for ExifField {
    type V = ExifFieldView;

    open spec fn view(&self) -> ExifFieldView {
        ExifFieldView {
            group: self.group,
            number: self.number,
            text: self.text@,
            rationals: match self.rationals {
                Some(list) => Some(list@),
                None => None,
            },
            shorts: match self.shorts {
                Some(list) => Some(list@),
                None => None,
            },
        }
    }
}

pub open spec fn fields_view(fields: Vec<ExifField>) -> Seq<ExifFieldView> {
    Seq::new(fields@.len(), |i: int| fields@[i]@)
}

pub const TAG_MAKE: u16 = 0x010F;

pub const TAG_MODEL: u16 = 0x0110;

pub const TAG_EXPOSURE_TIME: u16 = 0x829A;

pub const TAG_F_NUMBER: u16 = 0x829D;

pub const TAG_ISO_SPEED: u16 = 0x8833;

pub const TAG_DATE_TIME_ORIGINAL: u16 = 0x9003;

pub const TAG_FOCAL_LENGTH: u16 = 0x920A;

/// The decimal digits of `n`.
pub open spec fn decimal(n: nat) -> Seq<char>
    decreases n,
{
    if n < 10 {
        seq![digit(n)]
    } else {
        decimal(n / 10).push(digit(n % 10))
    }
}

/// The character of the digit `d`.
pub open spec fn digit(d: nat) -> char {
    if d == 0 {
        '0'
    } else if d == 1 {
        '1'
    } else if d == 2 {
        '2'
    } else if d == 3 {
        '3'
    } else if d == 4 {
        '4'
    } else if d == 5 {
        '5'
    } else if d == 6 {
        '6'
    } else if d == 7 {
        '7'
    } else if d == 8 {
        '8'
    } else {
        '9'
    }
}

/// A fraction written as `numerator/denominator`.
pub open spec fn fraction_text(q: Ratio) -> Seq<char> {
    decimal(q.num as nat) + seq!['/'] + decimal(q.den as nat)
}

/// Has std's `Display` for `u32` write the number. Trusted: the text is the
/// decimal digits of the number, without sign or leading zeros.
#[verifier::external_body]
pub(crate) fn decimal_text(n: u32) -> (r: String)
    ensures
        r@ == decimal(n as nat),
{
    format!("{}", n)
}

impl ExifView {
    /// The metadata with what `field` says put in. Fields with other tags
    /// change nothing, nor do fields whose value is of another kind than the
    /// tag asks for. A field of fractions without a fraction changes nothing
    /// either; an ISO field of 16-bit numbers without a number clears the
    /// entry.
    pub open spec fn with_field(self, field: ExifFieldView) -> ExifView {
        if field.group == TagGroup::Tiff && field.number == TAG_MAKE {
            ExifView { make: Some(field.text), ..self }
        } else if field.group == TagGroup::Tiff && field.number == TAG_MODEL {
            ExifView { model: Some(field.text), ..self }
        } else if field.group == TagGroup::Exif && field.number == TAG_EXPOSURE_TIME {
            match first_fraction(field) {
                Some(q) => ExifView { exposure_time: Some(fraction_text(q)), ..self },
                None => self,
            }
        } else if field.group == TagGroup::Exif && field.number == TAG_F_NUMBER {
            match first_fraction(field) {
                Some(q) => ExifView { f_number: Some(q), ..self },
                None => self,
            }
        } else if field.group == TagGroup::Exif && field.number == TAG_ISO_SPEED {
            match field.shorts {
                Some(list) => ExifView {
                    iso: match first_of(Some(list)) {
                        Some(v) => Some(v as u32),
                        None => None,
                    },
                    ..self
                },
                None => self,
            }
        } else if field.group == TagGroup::Exif && field.number == TAG_FOCAL_LENGTH {
            match first_fraction(field) {
                Some(q) => ExifView { focal_length: Some(q), ..self },
                None => self,
            }
        } else if field.group == TagGroup::Exif && field.number == TAG_DATE_TIME_ORIGINAL {
            ExifView { datetime: Some(field.text), ..self }
        } else {
            self
        }
    }

    /// The metadata that a list of fields gives: each field is put in in
    /// turn, so that of two fields with one tag the later one stays.
    pub open spec fn of_fields(fields: Seq<ExifFieldView>) -> ExifView
        decreases fields.len(),
    {
        if fields.len() == 0 {
            ExifView::empty()
        } else {
            ExifView::of_fields(fields.drop_last()).with_field(fields.last())
        }
    }
}

#[verifier::external_type_specification]
#[verifier::external_body]
pub struct ExMetadataError(exif::Error);

/// The metadata fields that the reader finds in a file with the bytes
/// `data`, in the order in which it hands them out; `None` where it finds no
/// metadata or cannot read it.
pub uninterp spec fn metadata_fields(data: Seq<u8>) -> Option<Seq<ExifFieldView>>;

/// Calls `exif::Reader::read_from_container` on a file held in memory and
/// copies out of each field its tag, its value as `display_as` writes it,
/// and the numbers of a value of fractions or of 16-bit numbers.
/// Trusted: the answer depends on the bytes alone, so it is
/// `metadata_fields` of them; nothing is said about what that answer is.
#[verifier::external_body]
fn read_fields(data: &[u8]) -> (r: Result<Vec<ExifField>, exif::Error>)
    ensures
        r matches Ok(fields) ==> metadata_fields(data@) == Some(fields_view(fields)),
        r is Err ==> metadata_fields(data@) is None,
{
    let found = Reader::new().read_from_container(&mut Cursor::new(data))?;
    Ok(found.fields().map(|f| ExifField {
        group: match f.tag.context() {
            Context::Tiff => TagGroup::Tiff, Context::Exif => TagGroup::Exif,
            Context::Gps => TagGroup::Gps, Context::Interop => TagGroup::Interop,
            _ => TagGroup::Other,
        },
        number: f.tag.number(),
        text: f.value.display_as(f.tag).to_string(),
        rationals: match &f.value { Value::Rational(v) => Some(v.iter().map(|q| (q.num, q.denom)).collect()), _ => None },
        shorts: match &f.value { Value::Short(v) => Some(v.clone()), _ => None },
    }).collect())
}

/// The metadata of a file with the bytes `data`, if the reader finds any.
pub open spec fn metadata_of(data: Seq<u8>) -> Option<ExifView> {
    match metadata_fields(data) {
        Some(fields) => Some(ExifView::of_fields(fields)),
        None => None,
    }
}

/// The first fraction of a field's value, if the value is made of fractions
/// and holds one.
fn first_rational(field: &ExifField) -> (r: Option<Ratio>)
    ensures
        r == first_fraction(field@),
{
    match &field.rationals {
        Some(list) => if list.len() > 0 {
            Some(Ratio { num: list[0].0, den: list[0].1 })
        } else {
            None
        },
        None => None,
    }
}

impl ExifData {
    /// Puts in what `field` says.
    pub fn set_field(&mut self, field: &ExifField)
        ensures
            final(self)@ == old(self)@.with_field(field@),
    {
        match field.group {
            TagGroup::Tiff => {
                if field.number == TAG_MAKE {
                    self.make = Some(field.text.clone());
                } else if field.number == TAG_MODEL {
                    self.model = Some(field.text.clone());
                }
            },
            TagGroup::Exif => {
                if field.number == TAG_EXPOSURE_TIME {
                    match first_rational(field) {
                        Some(q) => {
                            let mut text = decimal_text(q.num);
                            text.append("/");
                            text.append(decimal_text(q.den).as_str());
                            proof {
                                reveal_strlit("/");
                                assert("/"@ =~= seq!['/']);
                            }
                            self.exposure_time = Some(text);
                        },
                        None => {},
                    }
                } else if field.number == TAG_F_NUMBER {
                    match first_rational(field) {
                        Some(q) => {
                            self.f_number = Some(q);
                        },
                        None => {},
                    }
                } else if field.number == TAG_ISO_SPEED {
                    match &field.shorts {
                        Some(list) => {
                            self.iso = if list.len() > 0 {
                                Some(list[0] as u32)
                            } else {
                                None
                            };
                        },
                        None => {},
                    }
                } else if field.number == TAG_FOCAL_LENGTH {
                    match first_rational(field) {
                        Some(q) => {
                            self.focal_length = Some(q);
                        },
                        None => {},
                    }
                } else if field.number == TAG_DATE_TIME_ORIGINAL {
                    self.datetime = Some(field.text.clone());
                }
            },
            _ => {},
        }
    }

    /// The metadata that a list of fields gives.
    pub fn from_fields(fields: &Vec<ExifField>) -> (r: ExifData)
        ensures
            r@ == ExifView::of_fields(fields_view(*fields)),
    {
        let mut data = ExifData::empty();
        let ghost all = fields_view(*fields);
        let mut i: usize = 0;
        proof {
            assert(all.take(0) =~= Seq::<ExifFieldView>::empty());
        }
        while i < fields.len()
            invariant
                i <= fields@.len(),
                all == fields_view(*fields),
                data@ == ExifView::of_fields(all.take(i as int)),
            decreases fields@.len() - i,
        {
            proof {
                assert(all.take(i + 1).drop_last() =~= all.take(i as int));
                assert(all.take(i + 1).last() == fields@[i as int]@);
            }
            data.set_field(&fields[i]);
            i += 1;
        }
        proof {
            assert(all.take(fields@.len() as int) =~= all);
        }
        data
    }
}

/// Reads the metadata of a file with the bytes `data`. A file without
/// metadata, or with metadata that cannot be read, has none.
pub fn load_exif(data: &[u8]) -> (r: Option<ExifData>)
    ensures
        exif_view(r) == metadata_of(data@),
{
    match read_fields(data) {
        Ok(fields) => Some(ExifData::from_fields(&fields)),
        Err(_) => None,
    }
}

/// What a photo is: where it lies, what is known about it, and its pixels
/// once they are decoded.
pub struct PhotoModel {
    pub path: Seq<char>,
    pub exif: Option<ExifView>,
    pub image: Option<ImageView>,
}

/// A decoded image together with its pixels laid out flat for display. The
/// flat buffer is made when the pair is, and always holds the image's pixels.
#[derive(Debug)]
pub struct LoadedImage {
    image: DecodedImage,
    rgb: Vec<u8>,
}

impl Clone for LoadedImage {
    fn clone(&self) -> (r: Self)
        ensures
            r.image() == self.image(),
    {
        LoadedImage::new(self.image.clone())
    }
}

impl LoadedImage {
    #[verifier::type_invariant]
    spec fn in_step(self) -> bool {
        self.rgb@ == self.image@.pixels
    }

    pub closed spec fn image(&self) -> ImageView {
        self.image@
    }

    pub fn new(image: DecodedImage) -> (r: LoadedImage)
        ensures
            r.image() == image@,
    {
        let rgb = image.as_bytes().clone();
        LoadedImage { image, rgb }
    }

    pub fn decoded(&self) -> (r: &DecodedImage)
        ensures
            r@ == self.image(),
    {
        &self.image
    }

    /// The flat buffer.
    pub fn rgb(&self) -> (r: &Vec<u8>)
        ensures
            r@ == self.image().pixels,
    {
        proof {
            use_type_invariant(self);
        }
        &self.rgb
    }
}

/// A picture file with its metadata and, once decoded, its pixels.
#[derive(Debug, Clone)]
pub struct Photo {
    path: String,
    exif_data: Option<ExifData>,
    image: Option<LoadedImage>,
}

pub open spec fn exif_view(exif: Option<ExifData>) -> Option<ExifView> {
    match exif {
        Some(data) => Some(data@),
        None => None,
    }
}

pub open spec fn image_view(image: Option<DecodedImage>) -> Option<ImageView> {
    match image {
        Some(pixels) => Some(pixels@),
        None => None,
    }
}

impl View for Photo {
    type V = PhotoModel;

    closed spec fn view(&self) -> PhotoModel {
        PhotoModel {
            path: self.path@,
            exif: exif_view(self.exif_data),
            image: match self.image {
                Some(loaded) => Some(loaded.image()),
                None => None,
            },
        }
    }
}

/// What decoding a file gives when the processor is chosen by the file's
/// name: a name without an extension is refused, a RAW extension goes to the
/// RAW processor and any other to the general codec.
pub open spec fn loaded_by_name(path: Seq<char>, data: Seq<u8>) -> Result<ImageView, LoadError> {
    match kind_of(vstd::utf8::encode_utf8(path)) {
        None => Err(LoadError::Read),
        Some(FileKind::Raw) => raw_loaded(data),
        Some(FileKind::Standard) => standard_loaded(data),
    }
}

impl Photo {
    /// A photo that is not decoded yet.
    pub fn new(path: String, exif_data: Option<ExifData>) -> (r: Photo)
        ensures
            r@ == (PhotoModel { path: path@, exif: exif_view(exif_data), image: None }),
    {
        Photo { path, exif_data, image: None }
    }

    pub fn path(&self) -> (r: &str)
        ensures
            r@ == self@.path,
    {
        self.path.as_str()
    }

    pub fn exif_data(&self) -> (r: Option<&ExifData>)
        ensures
            r is Some == self@.exif is Some,
            r matches Some(data) ==> Some(data@) == self@.exif,
    {
        self.exif_data.as_ref()
    }

    pub fn image(&self) -> (r: Option<&DecodedImage>)
        ensures
            r is Some == self@.image is Some,
            r matches Some(pixels) ==> Some(pixels@) == self@.image,
    {
        match &self.image {
            Some(loaded) => Some(loaded.decoded()),
            None => None,
        }
    }

    /// A photo of the file at `path` with the bytes `data`, not decoded yet,
    /// with the metadata that can be read from it.
    pub fn from_file(path: String, data: &[u8]) -> (r: Photo)
        ensures
            r@ == (PhotoModel { path: path@, exif: metadata_of(data@), image: None }),
    {
        Photo::new(path, load_exif(data))
    }

    /// Decodes the file, whose bytes are `data`, by the processor that its
    /// name asks for.
    pub fn load_image(&self, data: &[u8]) -> (r: Result<DecodedImage, LoadError>)
        ensures
            outcome(r) == loaded_by_name(self@.path, data@),
    {
        match kind_by_extension(self.path.as_str()) {
            None => Err(LoadError::Read),
            Some(FileKind::Raw) => RawProcessor::new().load_image(data),
            Some(FileKind::Standard) => StandardProcessor::new().load_image(data),
        }
    }

    /// Attaches the decoded pixels, replacing any that were there.
    pub fn set_image(&mut self, image: DecodedImage)
        ensures
            final(self)@ == (PhotoModel { image: Some(image@), ..old(self)@ }),
    {
        self.image = Some(LoadedImage::new(image));
    }

    /// The flat RGB buffer of the decoded image, if there is one. It is made
    /// anew whenever the image is set.
    pub fn rgb_data(&self) -> (r: Option<&Vec<u8>>)
        ensures
            r is Some == self@.image is Some,
            r matches Some(bytes) ==> bytes@ == self@.image->0.pixels,
    {
        match &self.image {
            Some(loaded) => Some(loaded.rgb()),
            None => None,
        }
    }

    /// A copy of the flat RGB buffer, empty while there is no image.
    pub fn get_rgb_data(&self) -> (r: Vec<u8>)
        ensures
            r@ == (match self@.image {
                Some(pixels) => pixels.pixels,
                None => Seq::<u8>::empty(),
            }),
    {
        match &self.image {
            Some(loaded) => loaded.rgb().clone(),
            None => Vec::new(),
        }
    }
}

} // verus!
