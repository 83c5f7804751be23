use photoflow::cache::ImageCache;
use photoflow::photo::Photo;
use std::io::Cursor;
use std::time::Instant;

fn jpeg_file() -> Vec<u8> {
    let (w, h) = (256u32, 256u32);
    let pixels: Vec<u8> = (0..w * h * 3).map(|k| ((k * 7 + k / 97) % 251) as u8).collect();
    let image = image::RgbImage::from_raw(w, h, pixels).unwrap();
    let mut out = Cursor::new(Vec::new());
    image::DynamicImage::ImageRgb8(image)
        .write_to(&mut out, image::ImageOutputFormat::Jpeg(90))
        .unwrap();
    out.into_inner()
}

fn raw_file() -> Vec<u8> {
    let (width, height) = (16u32, 8u32);
    let mut file = vec![0u8; 4096];
    file[0..4].copy_from_slice(b"ARRI");
    file[8..12].copy_from_slice(&4096u32.to_le_bytes());
    file[20..24].copy_from_slice(&width.to_le_bytes());
    file[24..28].copy_from_slice(&height.to_le_bytes());
    for k in 0..3 {
        file[100 + 4 * k..104 + 4 * k].copy_from_slice(&1.0f32.to_le_bytes());
    }
    file[668..673].copy_from_slice(b"ALEXA");
    file.extend((0..width * height * 3 / 2).map(|k| (k * 31 % 256) as u8));
    file
}

#[test]
fn test_image_loading_performance() {
    let jpeg_path = "test.jpg".to_string();
    let raw_path = "test.raf".to_string();
    let jpeg = jpeg_file();
    let raw = raw_file();

    println!("Testing JPEG loading performance...");
    let start = Instant::now();
    for _ in 0..5 {
        let mut photo = Photo::from_file(jpeg_path.clone(), &jpeg);
        let image = photo.load_image(&jpeg).expect("Failed to load JPEG");
        photo.set_image(image);
        assert!(photo.image().is_some());
    }
    let jpeg_time = start.elapsed();
    println!("JPEG loading time (5 iterations): {:?}", jpeg_time);

    println!("Testing cache hit performance...");
    let mut cache = ImageCache::new();
    cache.get_or_decode(&jpeg_path, Some(1), &jpeg).expect("Failed to load JPEG");
    let start = Instant::now();
    for _ in 0..5 {
        let mut photo = Photo::new(jpeg_path.clone(), None);
        let image = cache.get_or_decode(&jpeg_path, Some(1), &jpeg).expect("Failed to load JPEG");
        photo.set_image(image);
        assert!(photo.image().is_some());
    }
    let cache_time = start.elapsed();
    println!("Cache hit time (5 iterations): {:?}", cache_time);
    assert!(cache_time < jpeg_time, "Cache should be faster than loading from disk");

    println!("Testing RAW loading performance...");
    let start = Instant::now();
    let mut photo = Photo::from_file(raw_path, &raw);
    let image = photo.load_image(&raw).expect("Failed to load RAW");
    photo.set_image(image);
    assert!(photo.image().is_some());
    let raw_time = start.elapsed();
    println!("RAW loading time: {:?}", raw_time);
}
