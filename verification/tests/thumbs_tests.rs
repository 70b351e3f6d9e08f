use image_gallery::thumbs::{thumbnail_bytes, ThumbError};

fn png_bytes(width: u32, height: u32) -> Vec<u8> {
    let img = image::DynamicImage::new_rgb8(width, height);
    let mut cursor = std::io::Cursor::new(Vec::new());
    img.write_to(&mut cursor, image::ImageFormat::Png).unwrap();
    cursor.into_inner()
}

#[test]
fn wide_image_is_bounded_with_aspect_kept() {
    let data = png_bytes(200, 50);
    let out = thumbnail_bytes(&data, "png").unwrap();
    assert_ne!(out, data);
    let thumb = image::load_from_memory(&out).unwrap();
    assert!(thumb.width() <= 100 && thumb.height() <= 100);
    assert_eq!((thumb.width(), thumb.height()), (100, 25));
}

#[test]
fn tall_image_is_bounded_with_aspect_kept() {
    let data = png_bytes(40, 400);
    let out = thumbnail_bytes(&data, "png").unwrap();
    let thumb = image::load_from_memory(&out).unwrap();
    assert!(thumb.width() <= 100 && thumb.height() <= 100);
    assert_eq!((thumb.width(), thumb.height()), (10, 100));
}

#[test]
fn small_image_is_scaled_up_to_fit() {
    let data = png_bytes(30, 20);
    let out = thumbnail_bytes(&data, "png").unwrap();
    let thumb = image::load_from_memory(&out).unwrap();
    assert_eq!((thumb.width(), thumb.height()), (100, 67));
}

#[test]
fn unknown_extension_is_refused() {
    let data = png_bytes(10, 10);
    assert_eq!(thumbnail_bytes(&data, "txt"), Err(ThumbError::UnsupportedFormat));
    assert_eq!(thumbnail_bytes(&data, "noext"), Err(ThumbError::UnsupportedFormat));
}

#[test]
fn known_extension_is_matched_lowercased() {
    let data = png_bytes(10, 10);
    assert!(thumbnail_bytes(&data, "PNG").is_ok());
}

#[test]
fn same_input_gives_the_same_thumbnail() {
    let data = png_bytes(64, 48);
    let first = thumbnail_bytes(&data, "png");
    let second = thumbnail_bytes(&data, "png");
    assert!(first.is_ok());
    assert_eq!(first, second);
}

#[test]
fn unencodable_format_is_refused() {
    let data = png_bytes(10, 10);
    assert_eq!(thumbnail_bytes(&data, "dds"), Err(ThumbError::Encode));
}

#[test]
fn undecodable_bytes_are_refused() {
    let data = vec![0u8; 64];
    assert_eq!(thumbnail_bytes(&data, "png"), Err(ThumbError::Decode));
}
