use crate::decoded::{DecodedImage, ImageView};
use crate::photo::{exif_view, image_view, ExifData, ExifView, Photo, PhotoModel};
use crate::paths::{lemma_position, lemma_position_found, position};
use vstd::prelude::*;
use vstd::string::StringExecFns;

verus! {

/// What happened: a request of the user, or the result of work done outside.
#[derive(Debug)]
pub enum Message {
    /// The user asks for a directory to be picked.
    LoadDirectory,
    /// A directory was picked; these are its picture files.
    DirectoryLoaded(Vec<String>),
    /// The user picks the photo at an index.
    PhotoSelected(usize),
    NextPhoto,
    PreviousPhoto,
    /// Work done outside failed.
    Error(String),
    /// A photo was read: its path, its pixels if they could be decoded, and
    /// its metadata if there is any.
    ImageLoaded(String, Option<DecodedImage>, Option<ExifData>),
}

/// What is to be done outside after a message.
#[derive(Debug)]
pub enum Command {
    /// Nothing is to be done.
    Nothing,
    /// Let the user pick a directory and report its picture files.
    PickDirectory,
    /// Read and decode the photo at this path and report it.
    LoadPhoto(String),
}

/// `Message` as plain values.
pub enum MessageView {
    LoadDirectory,
    DirectoryLoaded(Seq<Seq<char>>),
    PhotoSelected(nat),
    NextPhoto,
    PreviousPhoto,
    Error(Seq<char>),
    ImageLoaded(Seq<char>, Option<ImageView>, Option<ExifView>),
}

/// `Command` as plain values.
pub enum CommandView {
    Nothing,
    PickDirectory,
    LoadPhoto(Seq<char>),
}

impl View for Message {
    type V = MessageView;

    open spec fn view(&self) -> MessageView {
        match self {
            Message::LoadDirectory => MessageView::LoadDirectory,
            Message::DirectoryLoaded(paths) => MessageView::DirectoryLoaded(paths.deep_view()),
            Message::PhotoSelected(index) => MessageView::PhotoSelected(*index as nat),
            Message::NextPhoto => MessageView::NextPhoto,
            Message::PreviousPhoto => MessageView::PreviousPhoto,
            Message::Error(text) => MessageView::Error(text@),
            Message::ImageLoaded(path, image, exif) => MessageView::ImageLoaded(
                path@,
                image_view(*image),
                exif_view(*exif),
            ),
        }
    }
}

impl View for Command {
    type V = CommandView;

    open spec fn view(&self) -> CommandView {
        match self {
            Command::Nothing => CommandView::Nothing,
            Command::PickDirectory => CommandView::PickDirectory,
            Command::LoadPhoto(path) => CommandView::LoadPhoto(path@),
        }
    }
}

/// The state of the viewer: the picture files of the directory, the photos
/// read so far (one slot per file), the photo on show, and the last error.
pub struct FlowView {
    pub paths: Seq<Seq<char>>,
    pub photos: Seq<Option<PhotoModel>>,
    pub current: Option<nat>,
    pub error: Option<Seq<char>>,
}

pub open spec fn no_photos_text() -> Seq<char> {
    "No photos found in directory"@
}

impl FlowView {
    /// There is one slot per file, and the photo on show is one of them.
    pub open spec fn wf(self) -> bool {
        &&& self.photos.len() == self.paths.len()
        &&& self.current matches Some(index) ==> index < self.photos.len()
    }

    pub open spec fn initial() -> FlowView {
        FlowView { paths: Seq::empty(), photos: Seq::empty(), current: None, error: None }
    }

    /// The state after `message`, with what is to be done outside.
    ///
    /// Going to a photo that is not read yet asks for it to be read. Stepping
    /// forward to such a photo leaves the photo on show as it is; picking one
    /// by index or stepping back shows the empty slot at once. A photo that
    /// arrives goes into the first slot with its path, whatever is on show by
    /// then; one whose path is not among the files is dropped.
    pub open spec fn step(self, message: MessageView) -> (FlowView, CommandView) {
        match message {
            MessageView::LoadDirectory => (self, CommandView::PickDirectory),
            MessageView::DirectoryLoaded(paths) => if paths.len() > 0 {
                (
                    FlowView {
                        paths: paths,
                        photos: Seq::new(paths.len(), |i: int| None::<PhotoModel>),
                        current: Some(0),
                        error: None,
                    },
                    CommandView::LoadPhoto(paths[0]),
                )
            } else {
                (FlowView { error: Some(no_photos_text()), ..self }, CommandView::Nothing)
            },
            MessageView::PhotoSelected(index) => if index < self.photos.len() {
                (
                    FlowView { current: Some(index), ..self },
                    if self.photos[index as int] is None {
                        CommandView::LoadPhoto(self.paths[index as int])
                    } else {
                        CommandView::Nothing
                    },
                )
            } else {
                (self, CommandView::Nothing)
            },
            MessageView::NextPhoto => match self.current {
                Some(current) => if current + 1 < self.photos.len() {
                    if self.photos[(current + 1) as int] is None {
                        (self, CommandView::LoadPhoto(self.paths[(current + 1) as int]))
                    } else {
                        (FlowView { current: Some((current + 1) as nat), ..self }, CommandView::Nothing)
                    }
                } else {
                    (self, CommandView::Nothing)
                },
                None => (self, CommandView::Nothing),
            },
            MessageView::PreviousPhoto => match self.current {
                Some(current) => if current > 0 {
                    (
                        FlowView { current: Some((current - 1) as nat), ..self },
                        if self.photos[current - 1] is None {
                            CommandView::LoadPhoto(self.paths[current - 1])
                        } else {
                            CommandView::Nothing
                        },
                    )
                } else {
                    (self, CommandView::Nothing)
                },
                None => (self, CommandView::Nothing),
            },
            MessageView::Error(text) => (FlowView { error: Some(text), ..self }, CommandView::Nothing),
            MessageView::ImageLoaded(path, image, exif) => match position(self.paths, path) {
                Some(index) => (
                    FlowView {
                        photos: self.photos.update(
                            index as int,
                            Some(
                                match self.photos[index as int] {
                                    None => PhotoModel { path, exif, image },
                                    Some(photo) => match image {
                                        Some(pixels) => PhotoModel { image: Some(pixels), ..photo },
                                        None => photo,
                                    },
                                },
                            ),
                        ),
                        ..self
                    },
                    CommandView::Nothing,
                ),
                None => (self, CommandView::Nothing),
            },
        }
    }
}

/// A step keeps the state well-formed.
pub proof fn lemma_step_keeps_wf(state: FlowView, message: MessageView)
    requires
        state.wf(),
    ensures
        state.step(message).0.wf(),
{
    if let MessageView::ImageLoaded(path, image, exif) = message {
        lemma_position(state.paths, path);
    }
}

pub open spec fn photo_view(photo: Option<Photo>) -> Option<PhotoModel> {
    match photo {
        Some(p) => Some(p@),
        None => None,
    }
}

/// One file of the directory with its photo, once that is read.
#[derive(Debug)]
struct Slot {
    path: String,
    photo: Option<Photo>,
}

/// The viewer's state and the rules by which messages change it.
#[derive(Debug)]
pub struct PhotoFlow {
    slots: Vec<Slot>,
    current_photo: Option<usize>,
    error: Option<String>,
}

impl View for PhotoFlow {
    type V = FlowView;

    closed spec fn view(&self) -> FlowView {
        FlowView {
            paths: Seq::new(self.slots@.len(), |i: int| self.slots@[i].path@),
            photos: Seq::new(self.slots@.len(), |i: int| photo_view(self.slots@[i].photo)),
            current: match self.current_photo {
                Some(index) => Some(index as nat),
                None => None,
            },
            error: match self.error {
                Some(text) => Some(text@),
                None => None,
            },
        }
    }
}

impl PhotoFlow {
    #[verifier::type_invariant]
    spec fn sound(self) -> bool {
        self.current_photo matches Some(index) ==> index < self.slots@.len()
    }

    /// A viewer with no directory loaded.
    pub fn new() -> (r: PhotoFlow)
        ensures
            r@ == FlowView::initial(),
    {
        let r = PhotoFlow { slots: Vec::new(), current_photo: None, error: None };
        proof {
            assert(r@.paths =~= Seq::empty());
            assert(r@.photos =~= Seq::empty());
        }
        r
    }

    /// The window title.
    pub fn title(&self) -> (r: String)
        ensures
            r@ == "PhotoFlow"@,
    {
        String::from_str("PhotoFlow")
    }

    /// The index of the first file with this path.
    fn find_path(&self, path: &String) -> (r: Option<usize>)
        ensures
            r is Some == position(self@.paths, path@) is Some,
            r matches Some(k) ==> position(self@.paths, path@) == Some(k as nat),
    {
        let ghost paths = self@.paths;
        let mut k: usize = 0;
        while k < self.slots.len()
            invariant
                k <= self.slots@.len(),
                paths == self@.paths,
                forall|j: int| 0 <= j < k ==> paths[j] != path@,
            decreases self.slots@.len() - k,
        {
            assert(paths[k as int] == self.slots@[k as int].path@);
            if self.slots[k].path == *path {
                proof {
                    lemma_position_found(paths, path@, k as int);
                }
                return Some(k);
            }
            k += 1;
        }
        proof {
            lemma_position(paths, path@);
        }
        None
    }

    /// The photo on show, if one is chosen and read. Every state is
    /// well-formed.
    pub fn current_photo(&self) -> (r: Option<&Photo>)
        ensures
            self@.wf(),
            r matches Some(photo) ==> self@.current matches Some(index) && self@.photos[index as int]
                == Some(photo@),
            r is None ==> self@.current is None || self@.photos[self@.current->0 as int] is None,
    {
        proof {
            use_type_invariant(self);
        }
        match self.current_photo {
            Some(index) => {
                assert(self@.photos[index as int] == photo_view(self.slots@[index as int].photo));
                self.slots[index].photo.as_ref()
            },
            None => None,
        }
    }

    pub fn error(&self) -> (r: Option<&String>)
        ensures
            r is Some == self@.error is Some,
            r matches Some(text) ==> Some(text@) == self@.error,
    {
        self.error.as_ref()
    }

    /// Takes a message in: changes the state as `step` says and returns what
    /// is to be done outside.
    pub fn update(&mut self, message: Message) -> (command: Command)
        ensures
            old(self)@.wf(),
            final(self)@ == old(self)@.step(message@).0,
            command@ == old(self)@.step(message@).1,
            final(self)@.wf(),
    {
        proof {
            use_type_invariant(&*self);
            lemma_step_keeps_wf(self@, message@);
        }
        let ghost before = self@;
        let count: usize = self.slots.len();
        match message {
            Message::LoadDirectory => Command::PickDirectory,
            Message::DirectoryLoaded(paths) => {
                if paths.len() > 0 {
                    let first: String = paths[0].clone();
                    let mut slots: Vec<Slot> = Vec::new();
                    let mut i: usize = 0;
                    while i < paths.len()
                        invariant
                            i <= paths@.len(),
                            slots@.len() == i,
                            forall|j: int|
                                0 <= j < i ==> (#[trigger] slots@[j]).photo is None && slots@[j].path@
                                    == paths@[j]@,
                        decreases paths@.len() - i,
                    {
                        slots.push(Slot { path: paths[i].clone(), photo: None });
                        i += 1;
                    }
                    self.current_photo = None;
                    self.slots = slots;
                    self.current_photo = Some(0);
                    self.error = None;
                    proof {
                        let after = before.step(message@).0;
                        assert(paths.deep_view().len() == paths@.len());
                        assert forall|j: int| 0 <= j < paths@.len() implies paths.deep_view()[j]
                            == paths@[j]@ by {}
                        assert(self@.paths =~= after.paths);
                        assert(self@.photos =~= after.photos);
                        assert(first@ == paths.deep_view()[0]);
                    }
                    Command::LoadPhoto(first)
                } else {
                    self.error = Some(String::from_str("No photos found in directory"));
                    Command::Nothing
                }
            },
            Message::PhotoSelected(index) => {
                if index < count {
                    self.current_photo = Some(index);
                    proof {
                        assert(before.photos[index as int] == photo_view(
                            self.slots@[index as int].photo,
                        ));
                        assert(before.paths[index as int] == self.slots@[index as int].path@);
                    }
                    if self.slots[index].photo.is_none() {
                        Command::LoadPhoto(self.slots[index].path.clone())
                    } else {
                        Command::Nothing
                    }
                } else {
                    Command::Nothing
                }
            },
            Message::NextPhoto => {
                match self.current_photo {
                    Some(current) => {
                        if current + 1 < count {
                            let next: usize = current + 1;
                            proof {
                                assert(before.photos[next as int] == photo_view(
                                    self.slots@[next as int].photo,
                                ));
                                assert(before.paths[next as int] == self.slots@[next as int].path@);
                            }
                            if self.slots[next].photo.is_none() {
                                Command::LoadPhoto(self.slots[next].path.clone())
                            } else {
                                self.current_photo = Some(next);
                                Command::Nothing
                            }
                        } else {
                            Command::Nothing
                        }
                    },
                    None => Command::Nothing,
                }
            },
            Message::PreviousPhoto => {
                match self.current_photo {
                    Some(current) => {
                        if current > 0 {
                            let previous: usize = current - 1;
                            self.current_photo = Some(previous);
                            proof {
                                assert(before.photos[previous as int] == photo_view(
                                    self.slots@[previous as int].photo,
                                ));
                                assert(before.paths[previous as int]
                                    == self.slots@[previous as int].path@);
                            }
                            if self.slots[previous].photo.is_none() {
                                Command::LoadPhoto(self.slots[previous].path.clone())
                            } else {
                                Command::Nothing
                            }
                        } else {
                            Command::Nothing
                        }
                    },
                    None => Command::Nothing,
                }
            },
            Message::Error(text) => {
                self.error = Some(text);
                Command::Nothing
            },
            Message::ImageLoaded(path, image, exif) => {
                match self.find_path(&path) {
                    Some(index) => {
                        proof {
                            lemma_position(before.paths, path@);
                            assert(before.photos[index as int] == photo_view(
                                self.slots@[index as int].photo,
                            ));
                            assert(before.paths[index as int] == self.slots@[index as int].path@);
                        }
                        let shown: Option<usize> = self.current_photo;
                        self.current_photo = None;
                        let mut slots: Vec<Slot> = Vec::new();
                        std::mem::swap(&mut slots, &mut self.slots);
                        let ghost old_slots = slots@;
                        let mut slot = Slot { path: path.clone(), photo: None };
                        std::mem::swap(&mut slot, &mut slots[index]);
                        let photo: Photo = match slot.photo {
                            None => {
                                let mut photo = Photo::new(path, exif);
                                match image {
                                    Some(pixels) => {
                                        photo.set_image(pixels);
                                    },
                                    None => {},
                                }
                                photo
                            },
                            Some(mut photo) => {
                                match image {
                                    Some(pixels) => {
                                        photo.set_image(pixels);
                                    },
                                    None => {},
                                }
                                photo
                            },
                        };
                        slots.set(index, Slot { path: slot.path, photo: Some(photo) });
                        proof {
                            assert(slots@.len() == old_slots.len());
                            assert forall|j: int| 0 <= j < slots@.len() && j != index implies slots@[j]
                                == old_slots[j] by {}
                        }
                        std::mem::swap(&mut slots, &mut self.slots);
                        self.current_photo = shown;
                        proof {
                            let after = before.step(message@).0;
                            assert(self@.paths =~= after.paths);
                            assert(self@.photos =~= after.photos);
                        }
                        Command::Nothing
                    },
                    None => Command::Nothing,
                }
            },
        }
    }
}

} // verus!
