use crate::photo::{decimal, decimal_text, ExifData, ExifView};
use vstd::prelude::*;
use vstd::string::StringExecFns;

verus! {

/// `parts` written one after the other with `separator` between them.
pub open spec fn joined(parts: Seq<Seq<char>>, separator: Seq<char>) -> Seq<char>
    decreases parts.len(),
{
    if parts.len() == 0 {
        Seq::empty()
    } else if parts.len() == 1 {
        parts[0]
    } else {
        joined(parts.drop_last(), separator) + separator + parts.last()
    }
}

/// `parts` with `part` added where there is one.
pub open spec fn with_part(parts: Seq<Seq<char>>, part: Option<Seq<char>>) -> Seq<Seq<char>> {
    match part {
        Some(text) => parts.push(text),
        None => parts,
    }
}

/// The camera: make and model, either alone, or a word for neither.
pub open spec fn camera_text(exif: ExifView) -> Seq<char> {
    match (exif.make, exif.model) {
        (Some(make), Some(model)) => make + " "@ + model,
        (Some(make), None) => make,
        (None, Some(model)) => model,
        (None, None) => "Unknown Camera"@,
    }
}

/// The exposure settings that are known, in the order exposure time,
/// f-number, ISO, focal length. `f_number` and `focal_length` are the two
/// numbers as they are to be shown.
pub open spec fn settings_parts(exif: ExifView, f_number: Seq<char>, focal_length: Seq<char>) -> Seq<
    Seq<char>,
> {
    let exposure = match exif.exposure_time {
        Some(time) => Some(time + "s"@),
        None => None,
    };
    let aperture = match exif.f_number {
        Some(_) => Some("f/"@ + f_number),
        None => None,
    };
    let iso = match exif.iso {
        Some(iso) => Some("ISO "@ + decimal(iso as nat)),
        None => None,
    };
    let focal = match exif.focal_length {
        Some(_) => Some(focal_length + "mm"@),
        None => None,
    };
    with_part(with_part(with_part(with_part(Seq::empty(), exposure), aperture), iso), focal)
}

/// The lines that describe a photo: its file name, then, where it has
/// metadata, the camera, the date if known, and the settings if any is
/// known.
pub open spec fn info_lines(
    file_name: Seq<char>,
    exif: Option<ExifView>,
    f_number: Seq<char>,
    focal_length: Seq<char>,
) -> Seq<Seq<char>> {
    let first = seq!["File: "@ + file_name];
    match exif {
        None => first,
        Some(data) => {
            let date = match data.datetime {
                Some(when) => Some("Date: "@ + when),
                None => None,
            };
            let parts = settings_parts(data, f_number, focal_length);
            let settings = if parts.len() > 0 {
                Some(joined(parts, " \u{2022} "@))
            } else {
                None
            };
            with_part(with_part(first.push(camera_text(data)), date), settings)
        },
    }
}

/// Writes `parts` one after the other with `separator` between them.
pub fn join(parts: &Vec<String>, separator: &str) -> (r: String)
    ensures
        r@ == joined(parts.deep_view(), separator@),
{
    let ghost all = parts.deep_view();
    let mut text = String::new();
    let mut i: usize = 0;
    proof {
        assert(all.take(0) =~= Seq::<Seq<char>>::empty());
    }
    while i < parts.len()
        invariant
            i <= parts@.len(),
            all == parts.deep_view(),
            all.len() == parts@.len(),
            text@ == joined(all.take(i as int), separator@),
        decreases parts@.len() - i,
    {
        proof {
            assert(all.take(i + 1).drop_last() =~= all.take(i as int));
            assert(all.take(i + 1).last() == parts@[i as int]@);
            if i == 0 {
                assert(text@ + parts@[0]@ =~= parts@[0]@);
            }
        }
        if i > 0 {
            text.append(separator);
        }
        text.append(parts[i].as_str());
        i += 1;
    }
    proof {
        assert(all.take(parts@.len() as int) =~= all);
    }
    text
}

/// The part of the window that shows one photo with what is known about it.
#[derive(Debug, Default)]
pub struct PhotoView {}

impl PhotoView {
    pub fn new() -> (r: PhotoView) {
        PhotoView {  }
    }

    /// The camera line.
    pub fn camera_line(&self, exif: &ExifData) -> (r: String)
        ensures
            r@ == camera_text(exif@),
    {
        match (&exif.make, &exif.model) {
            (Some(make), Some(model)) => {
                let mut text = make.clone();
                text.append(" ");
                text.append(model.as_str());
                text
            },
            (Some(make), None) => make.clone(),
            (None, Some(model)) => model.clone(),
            (None, None) => String::from_str("Unknown Camera"),
        }
    }

    /// The settings that are known, each as it is shown.
    pub fn settings(&self, exif: &ExifData, f_number: &str, focal_length: &str) -> (r: Vec<String>)
        ensures
            r.deep_view() == settings_parts(exif@, f_number@, focal_length@),
    {
        let mut parts: Vec<String> = Vec::new();
        proof {
            assert(parts.deep_view() =~= Seq::<Seq<char>>::empty());
        }
        match &exif.exposure_time {
            Some(time) => {
                let mut text = time.clone();
                text.append("s");
                let ghost before = parts.deep_view();
                parts.push(text);
                proof {
                    assert(parts.deep_view() =~= before.push(text@));
                }
            },
            None => {},
        }
        match exif.f_number {
            Some(_) => {
                let mut text = String::from_str("f/");
                text.append(f_number);
                let ghost before = parts.deep_view();
                parts.push(text);
                proof {
                    assert(parts.deep_view() =~= before.push(text@));
                }
            },
            None => {},
        }
        match exif.iso {
            Some(iso) => {
                let mut text = String::from_str("ISO ");
                text.append(decimal_text(iso).as_str());
                let ghost before = parts.deep_view();
                parts.push(text);
                proof {
                    assert(parts.deep_view() =~= before.push(text@));
                }
            },
            None => {},
        }
        match exif.focal_length {
            Some(_) => {
                let mut text = String::from_str(focal_length);
                text.append("mm");
                let ghost before = parts.deep_view();
                parts.push(text);
                proof {
                    assert(parts.deep_view() =~= before.push(text@));
                }
            },
            None => {},
        }
        parts
    }

    /// The lines that describe a photo. `f_number` and `focal_length` are
    /// the two numbers as they are to be shown; they are used only where the
    /// metadata holds them.
    pub fn info(
        &self,
        file_name: &str,
        exif: Option<&ExifData>,
        f_number: &str,
        focal_length: &str,
    ) -> (r: Vec<String>)
        ensures
            r.deep_view() == info_lines(
                file_name@,
                match exif {
                    Some(data) => Some(data@),
                    None => None,
                },
                f_number@,
                focal_length@,
            ),
    {
        let mut lines: Vec<String> = Vec::new();
        let mut first = String::from_str("File: ");
        first.append(file_name);
        lines.push(first);
        proof {
            assert(lines.deep_view() =~= seq!["File: "@ + file_name@]);
        }
        match exif {
            None => {},
            Some(data) => {
                let camera = self.camera_line(data);
                let ghost before = lines.deep_view();
                lines.push(camera);
                proof {
                    assert(lines.deep_view() =~= before.push(camera@));
                }
                match &data.datetime {
                    Some(when) => {
                        let mut text = String::from_str("Date: ");
                        text.append(when.as_str());
                        let ghost before = lines.deep_view();
                        lines.push(text);
                        proof {
                            assert(lines.deep_view() =~= before.push(text@));
                        }
                    },
                    None => {},
                }
                let parts = self.settings(data, f_number, focal_length);
                if parts.len() > 0 {
                    let text = join(&parts, " \u{2022} ");
                    let ghost before = lines.deep_view();
                    lines.push(text);
                    proof {
                        assert(lines.deep_view() =~= before.push(text@));
                    }
                }
            },
        }
        lines
    }
}

} // verus!
