use image_gallery::reply::{file_reply, index_reply, IndexOutcome, ReplyBody};

#[test]
fn existing_file_is_answered_whole_with_its_type() {
    let data = vec![137u8, 80, 78, 71, 13, 10, 26, 10, 7];
    let r = file_reply("good.png", Some(data.clone()));
    assert_eq!(r.status, 200);
    assert_eq!(r.content_type, "image/png");
    assert_eq!(r.body, ReplyBody::Bytes(data));
}

#[test]
fn missing_file_is_answered_not_found() {
    let r = file_reply("nonexistent.png", None);
    assert_eq!(r.status, 404);
    assert_eq!(r.content_type, "text/plain; charset=utf-8");
    match r.body {
        ReplyBody::Text(t) => assert!(!t.is_empty()),
        ReplyBody::Bytes(_) => panic!("a missing file must be answered with text"),
    }
}

#[test]
fn unknown_extension_is_answered_as_binary() {
    let data = vec![1u8, 2, 3];
    let r = file_reply("notes.txt", Some(data.clone()));
    assert_eq!(r.status, 200);
    assert_eq!(r.content_type, "application/octet-stream");
    assert_eq!(r.body, ReplyBody::Bytes(data));
}

#[test]
fn traversal_names_are_answered_not_found() {
    let r = file_reply("../good.png", Some(vec![1u8, 2, 3]));
    assert_eq!(r.status, 404);
    assert_eq!(r.content_type, "text/plain; charset=utf-8");
    let r = file_reply("..", Some(vec![1u8]));
    assert_eq!(r.status, 404);
    let r = file_reply("a\\b.png", Some(vec![1u8]));
    assert_eq!(r.status, 404);
}

#[test]
fn rendered_page_is_answered_as_html() {
    let r = index_reply(IndexOutcome::Page(String::from("<html></html>")));
    assert_eq!(r.status, 200);
    assert_eq!(r.content_type, "text/html; charset=utf-8");
    assert_eq!(r.body, ReplyBody::Text(String::from("<html></html>")));
}

#[test]
fn failed_thumbnailing_is_answered_500() {
    let r = index_reply(IndexOutcome::ThumbnailsFailed);
    assert_eq!(r.status, 500);
    assert_eq!(r.content_type, "text/plain; charset=utf-8");
    assert_eq!(r.body, ReplyBody::Text(String::from("Failed to generate thumbnails")));
}

#[test]
fn failed_listing_is_answered_500_without_partial_html() {
    let r = index_reply(IndexOutcome::ListingFailed);
    assert_eq!(r.status, 500);
    assert_eq!(r.content_type, "text/plain; charset=utf-8");
    match r.body {
        ReplyBody::Text(t) => {
            assert_eq!(t, "Failed to generate image list");
            assert!(!t.contains('<'));
        },
        ReplyBody::Bytes(_) => panic!("a failed listing must be answered with text"),
    }
}
