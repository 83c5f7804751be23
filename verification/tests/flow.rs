use photoflow::decoded::DecodedImage;
use photoflow::extension::{is_listed, kind_by_extension, list_pictures, FileKind};
use photoflow::flow::{Command, Message, PhotoFlow};
use photoflow::photo::ExifData;

fn picture(tag: u8) -> DecodedImage {
    DecodedImage::from_raw(1, 1, vec![tag, tag, tag]).unwrap()
}

fn paths(n: usize) -> Vec<String> {
    (0..n).map(|k| format!("/dir/{}.jpg", k)).collect()
}

fn load_path(command: Command) -> String {
    match command {
        Command::LoadPhoto(path) => path,
        other => panic!("expected a load, got {:?}", other),
    }
}

fn loaded(flow: &mut PhotoFlow, k: usize, tag: u8) {
    let c = flow.update(Message::ImageLoaded(format!("/dir/{}.jpg", k), Some(picture(tag)), None));
    assert!(matches!(c, Command::Nothing));
}

fn shown(flow: &PhotoFlow) -> Option<Vec<u8>> {
    flow.current_photo().map(|p| p.get_rgb_data())
}

#[test]
fn starts_empty() {
    let flow = PhotoFlow::new();
    assert!(flow.current_photo().is_none());
    assert!(flow.error().is_none());
    assert_eq!(flow.title(), "PhotoFlow");
}

#[test]
fn load_directory_asks_for_a_pick() {
    let mut flow = PhotoFlow::new();
    assert!(matches!(flow.update(Message::LoadDirectory), Command::PickDirectory));
    assert!(flow.current_photo().is_none());
    assert!(flow.error().is_none());
}

#[test]
fn loaded_directory_loads_its_first_photo() {
    let mut flow = PhotoFlow::new();
    flow.update(Message::Error("old".to_string()));
    let c = flow.update(Message::DirectoryLoaded(paths(3)));
    assert_eq!(load_path(c), "/dir/0.jpg");
    assert!(flow.error().is_none());
    assert!(flow.current_photo().is_none());
    loaded(&mut flow, 0, 10);
    assert_eq!(shown(&flow), Some(vec![10, 10, 10]));
    assert_eq!(flow.current_photo().unwrap().path(), "/dir/0.jpg");
}

#[test]
fn empty_directory_is_an_error() {
    let mut flow = PhotoFlow::new();
    flow.update(Message::DirectoryLoaded(paths(2)));
    loaded(&mut flow, 0, 10);
    let c = flow.update(Message::DirectoryLoaded(Vec::new()));
    assert!(matches!(c, Command::Nothing));
    assert_eq!(flow.error().unwrap(), "No photos found in directory");
    // what was loaded before stays
    assert_eq!(shown(&flow), Some(vec![10, 10, 10]));
}

#[test]
fn next_waits_for_the_photo_to_be_read() {
    let mut flow = PhotoFlow::new();
    flow.update(Message::DirectoryLoaded(paths(3)));
    loaded(&mut flow, 0, 10);
    assert_eq!(load_path(flow.update(Message::NextPhoto)), "/dir/1.jpg");
    assert_eq!(shown(&flow), Some(vec![10, 10, 10]));
    loaded(&mut flow, 1, 11);
    assert_eq!(shown(&flow), Some(vec![10, 10, 10]));
    assert!(matches!(flow.update(Message::NextPhoto), Command::Nothing));
    assert_eq!(shown(&flow), Some(vec![11, 11, 11]));
}

#[test]
fn next_stops_at_the_last_photo() {
    let mut flow = PhotoFlow::new();
    assert!(matches!(flow.update(Message::NextPhoto), Command::Nothing));
    flow.update(Message::DirectoryLoaded(paths(1)));
    loaded(&mut flow, 0, 10);
    assert!(matches!(flow.update(Message::NextPhoto), Command::Nothing));
    assert_eq!(shown(&flow), Some(vec![10, 10, 10]));
}

#[test]
fn previous_moves_at_once() {
    let mut flow = PhotoFlow::new();
    assert!(matches!(flow.update(Message::PreviousPhoto), Command::Nothing));
    flow.update(Message::DirectoryLoaded(paths(3)));
    assert!(matches!(flow.update(Message::PreviousPhoto), Command::Nothing));
    assert_eq!(load_path(flow.update(Message::PhotoSelected(2))), "/dir/2.jpg");
    loaded(&mut flow, 2, 12);
    assert_eq!(shown(&flow), Some(vec![12, 12, 12]));
    assert_eq!(load_path(flow.update(Message::PreviousPhoto)), "/dir/1.jpg");
    assert_eq!(shown(&flow), None);
    loaded(&mut flow, 1, 11);
    assert_eq!(shown(&flow), Some(vec![11, 11, 11]));
    loaded(&mut flow, 0, 10);
    assert!(matches!(flow.update(Message::PreviousPhoto), Command::Nothing));
    assert_eq!(shown(&flow), Some(vec![10, 10, 10]));
}

#[test]
fn selection_out_of_range_is_ignored() {
    let mut flow = PhotoFlow::new();
    assert!(matches!(flow.update(Message::PhotoSelected(0)), Command::Nothing));
    flow.update(Message::DirectoryLoaded(paths(2)));
    loaded(&mut flow, 0, 10);
    assert!(matches!(flow.update(Message::PhotoSelected(2)), Command::Nothing));
    assert!(matches!(flow.update(Message::PhotoSelected(usize::MAX)), Command::Nothing));
    assert_eq!(shown(&flow), Some(vec![10, 10, 10]));
    assert!(matches!(flow.update(Message::PhotoSelected(0)), Command::Nothing));
    assert_eq!(load_path(flow.update(Message::PhotoSelected(1))), "/dir/1.jpg");
    assert_eq!(shown(&flow), None);
}

#[test]
fn errors_are_kept_until_a_directory_loads() {
    let mut flow = PhotoFlow::new();
    assert!(matches!(flow.update(Message::Error("first".to_string())), Command::Nothing));
    flow.update(Message::Error("second".to_string()));
    assert_eq!(flow.error().unwrap(), "second");
    flow.update(Message::NextPhoto);
    assert_eq!(flow.error().unwrap(), "second");
    flow.update(Message::DirectoryLoaded(paths(1)));
    assert!(flow.error().is_none());
}

#[test]
fn arriving_photos_go_by_path() {
    let mut flow = PhotoFlow::new();
    flow.update(Message::DirectoryLoaded(vec![
        "a.jpg".to_string(),
        "b.jpg".to_string(),
        "a.jpg".to_string(),
    ]));
    let c = flow.update(Message::ImageLoaded("zzz.jpg".to_string(), Some(picture(1)), None));
    assert!(matches!(c, Command::Nothing));
    assert_eq!(shown(&flow), None);
    // the first file with the path gets it
    flow.update(Message::ImageLoaded("a.jpg".to_string(), Some(picture(2)), None));
    assert_eq!(shown(&flow), Some(vec![2, 2, 2]));
    assert_eq!(load_path(flow.update(Message::PhotoSelected(2))), "a.jpg");
    assert_eq!(shown(&flow), None);
}

#[test]
fn a_later_arrival_replaces_the_pixels() {
    let mut flow = PhotoFlow::new();
    flow.update(Message::DirectoryLoaded(paths(1)));
    let mut exif = ExifData::empty();
    exif.make = Some("Maker".to_string());
    flow.update(Message::ImageLoaded("/dir/0.jpg".to_string(), None, Some(exif)));
    assert_eq!(shown(&flow), Some(Vec::new()));
    assert_eq!(
        flow.current_photo().unwrap().exif_data().unwrap().make.as_deref(),
        Some("Maker")
    );
    loaded(&mut flow, 0, 5);
    assert_eq!(shown(&flow), Some(vec![5, 5, 5]));
    // the metadata of the first arrival stays
    assert_eq!(
        flow.current_photo().unwrap().exif_data().unwrap().make.as_deref(),
        Some("Maker")
    );
    flow.update(Message::ImageLoaded("/dir/0.jpg".to_string(), None, None));
    assert_eq!(shown(&flow), Some(vec![5, 5, 5]));
    loaded(&mut flow, 0, 6);
    assert_eq!(shown(&flow), Some(vec![6, 6, 6]));
}

#[test]
fn a_new_directory_forgets_the_old_photos() {
    let mut flow = PhotoFlow::new();
    flow.update(Message::DirectoryLoaded(paths(3)));
    loaded(&mut flow, 0, 10);
    flow.update(Message::PhotoSelected(2));
    let c = flow.update(Message::DirectoryLoaded(vec!["/other/x.raf".to_string()]));
    assert_eq!(load_path(c), "/other/x.raf");
    assert_eq!(shown(&flow), None);
    loaded(&mut flow, 0, 10);
    assert_eq!(shown(&flow), None);
}

#[test]
fn pictures_are_listed_by_extension() {
    for p in ["a.jpg", "a.JPG", "a.jpeg", "a.JpEg", "b.raf", "b.RAF", "c.raw", "/x/y.z/c.Raw"] {
        assert!(is_listed(p), "{}", p);
    }
    for p in [
        "a.png", "a.cr2", "a.jpg.txt", "jpg", ".jpg", "/dir/.raf", "a.jpg/", "a.jpg/b", "a.", "a.jp",
        "a.jpgg", "", "a.raf ", "a.\u{212A}",
    ] {
        assert!(!is_listed(p), "{}", p);
    }
    let files: Vec<String> =
        ["1.jpg", "notes.txt", "2.RAF", "3.png", ".raw", "4.raw"].iter().map(|s| s.to_string()).collect();
    assert_eq!(list_pictures(files), vec!["1.jpg", "2.RAF", "4.raw"]);
    assert!(list_pictures(Vec::new()).is_empty());
}

#[test]
fn files_are_read_by_extension() {
    for p in ["a.raf", "a.raw", "a.cr2", "a.NEF", "a.arw", "a.Rw2", "a.dng", "a.orf", "/d.x/a.RAF"] {
        assert_eq!(kind_by_extension(p), Some(FileKind::Raw), "{}", p);
    }
    for p in ["a.jpg", "a.png", "a.tiff", "a.raf2", "a.ra", "a.b.c", "..x", "a.r\u{e9}f"] {
        assert_eq!(kind_by_extension(p), Some(FileKind::Standard), "{}", p);
    }
    for p in ["", "a", "a.", ".raf", "/x/.raf", "dir.raf/a", "dir.raf/", "..", "a/b.c/d"] {
        assert_eq!(kind_by_extension(p), None, "{}", p);
    }
}
