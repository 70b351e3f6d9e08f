use image_gallery::names::{thumbnail_name, original_name, display_name, extension_of, is_safe_name};

#[test]
fn thumbnail_name_prefixes_marker() {
    assert_eq!(thumbnail_name("photo.jpg.png"), "thumb_photo.jpg.png");
    assert_eq!(thumbnail_name(""), "thumb_");
}

#[test]
fn original_name_strips_marker() {
    assert_eq!(original_name("thumb_photo.jpg.png"), "photo.jpg.png");
}

#[test]
fn original_name_without_marker_is_unchanged() {
    assert_eq!(original_name("photo.png"), "photo.png");
    assert_eq!(original_name("thumb"), "thumb");
    assert_eq!(original_name(""), "");
}

#[test]
fn original_name_round_trips_thumbnail_name() {
    let thumb = thumbnail_name("a.png");
    assert_eq!(original_name(&thumb), "a.png");
}

#[test]
fn display_name_stops_at_first_dot() {
    assert_eq!(display_name("photo.jpg.png"), "photo");
}

#[test]
fn display_name_of_dotless_name_is_the_name() {
    assert_eq!(display_name("photo"), "photo");
}

#[test]
fn display_name_of_leading_dot_is_empty() {
    assert_eq!(display_name(".hidden"), "");
    assert_eq!(display_name(""), "");
}

#[test]
fn plain_file_names_are_safe() {
    assert!(is_safe_name("photo.png"));
    assert!(is_safe_name("thumb_photo.jpg.png"));
    assert!(is_safe_name(".hidden"));
    assert!(is_safe_name("..."));
    assert!(is_safe_name(""));
}

#[test]
fn traversal_names_are_unsafe() {
    assert!(!is_safe_name(".."));
    assert!(!is_safe_name("../secret.png"));
    assert!(!is_safe_name("a/b.png"));
    assert!(!is_safe_name("a\\b.png"));
    assert!(!is_safe_name("/etc/hosts"));
}

#[test]
fn extension_is_after_the_last_dot() {
    assert_eq!(extension_of("photo.jpg.png"), "png");
    assert_eq!(extension_of("noext"), "noext");
    assert_eq!(extension_of("file."), "");
}
