use image_gallery::content::content_type_for;

#[test]
fn known_image_extensions_get_their_type() {
    assert_eq!(content_type_for("a.png"), "image/png");
    assert_eq!(content_type_for("a.jpg"), "image/jpeg");
    assert_eq!(content_type_for("a.jpeg"), "image/jpeg");
    assert_eq!(content_type_for("a.gif"), "image/gif");
}

#[test]
fn extension_is_matched_lowercased() {
    assert_eq!(content_type_for("A.PNG"), "image/png");
    assert_eq!(content_type_for("a.JpEg"), "image/jpeg");
    assert_eq!(content_type_for("a.GIF"), "image/gif");
}

#[test]
fn unknown_extensions_get_the_binary_type() {
    assert_eq!(content_type_for("a.txt"), "application/octet-stream");
    assert_eq!(content_type_for("a.webp"), "application/octet-stream");
    assert_eq!(content_type_for(""), "application/octet-stream");
}

#[test]
fn dotless_name_is_matched_whole() {
    assert_eq!(content_type_for("png"), "image/png");
    assert_eq!(content_type_for("archive"), "application/octet-stream");
}

#[test]
fn only_the_last_extension_counts() {
    assert_eq!(content_type_for("thumb_photo.jpg.png"), "image/png");
    assert_eq!(content_type_for("a.png.txt"), "application/octet-stream");
}
