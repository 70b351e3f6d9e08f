//! What each route answers.
//!
//! A reply is a status code, a content type and a body.  Serving a file
//! answers its bytes under the content type its name selects, or a plain
//! not-found message; the index page answers the rendered gallery, or a
//! plain message naming which step failed.

use vstd::prelude::*;
use crate::content::{spec_content_type, content_type_for};
use crate::names::{spec_safe_name, is_safe_name};

verus! {

/// An HTTP answer, ready to be written out by the server.
#[derive(Debug, PartialEq, Eq)]
pub struct Reply {
    pub status: u16,
    pub content_type: String,
    pub body: ReplyBody,
}

/// A reply's body: either text or a file's raw bytes.
#[derive(Debug, PartialEq, Eq)]
pub enum ReplyBody {
    Text(String),
    Bytes(Vec<u8>),
}

/// How far building the index page got: both steps done and the page in
/// hand, or the step that failed.
#[derive(Debug, PartialEq, Eq)]
pub enum IndexOutcome {
    /// Generating the missing thumbnails failed.
    ThumbnailsFailed,
    /// Listing the thumbnails or reading the template failed.
    ListingFailed,
    /// The rendered gallery page.
    Page(String),
}

/// The not-found answer: a plain-text message with a non-empty body.
fn not_found_reply() -> (r: Reply)
    ensures
        r.status == 404,
        r.content_type@ == "text/plain; charset=utf-8"@,
        r.body matches ReplyBody::Text(t) && t@ == "Image not found"@ && t@.len() > 0,
{
    proof {
        reveal_strlit("Image not found");
    }
    Reply {
        status: 404,
        content_type: String::from_str("text/plain; charset=utf-8"),
        body: ReplyBody::Text(String::from_str("Image not found")),
    }
}

/// The answer for a requested file: its bytes under the content type its
/// name selects when the name is safe and the read succeeded, and a plain
/// not-found message with a non-empty body otherwise — whatever the cause
/// of a failed read, and whatever was read for a name that could reach
/// outside the base directory.
pub fn file_reply(name: &str, contents: Option<Vec<u8>>) -> (r: Reply)
    ensures
        spec_safe_name(name@) ==> (contents matches Some(data) ==> r.status == 200
            && r.content_type@ == spec_content_type(name@) && r.body == ReplyBody::Bytes(data)),
        contents is None || !spec_safe_name(name@) ==> r.status == 404 && r.content_type@
            == "text/plain; charset=utf-8"@ && (r.body matches ReplyBody::Text(t) && t@
            == "Image not found"@ && t@.len() > 0),
{
    if !is_safe_name(name) {
        return not_found_reply();
    }
    match contents {
        Some(data) => Reply {
            status: 200,
            content_type: String::from_str(content_type_for(name)),
            body: ReplyBody::Bytes(data),
        },
        None => not_found_reply(),
    }
}

/// The answer for the index route: the page under the HTML content type
/// when both steps succeeded, and a plain message with a non-empty body
/// naming the failed step otherwise.
pub fn index_reply(outcome: IndexOutcome) -> (r: Reply)
    ensures
        outcome matches IndexOutcome::Page(page) ==> r.status == 200 && r.content_type@
            == "text/html; charset=utf-8"@ && r.body == ReplyBody::Text(page),
        outcome is ThumbnailsFailed ==> r.status == 500 && r.content_type@
            == "text/plain; charset=utf-8"@ && (r.body matches ReplyBody::Text(t) && t@
            == "Failed to generate thumbnails"@ && t@.len() > 0),
        outcome is ListingFailed ==> r.status == 500 && r.content_type@
            == "text/plain; charset=utf-8"@ && (r.body matches ReplyBody::Text(t) && t@
            == "Failed to generate image list"@ && t@.len() > 0),
{
    match outcome {
        IndexOutcome::Page(page) => Reply {
            status: 200,
            content_type: String::from_str("text/html; charset=utf-8"),
            body: ReplyBody::Text(page),
        },
        IndexOutcome::ThumbnailsFailed => {
            proof {
                reveal_strlit("Failed to generate thumbnails");
            }
            Reply {
                status: 500,
                content_type: String::from_str("text/plain; charset=utf-8"),
                body: ReplyBody::Text(String::from_str("Failed to generate thumbnails")),
            }
        },
        IndexOutcome::ListingFailed => {
            proof {
                reveal_strlit("Failed to generate image list");
            }
            Reply {
                status: 500,
                content_type: String::from_str("text/plain; charset=utf-8"),
                body: ReplyBody::Text(String::from_str("Failed to generate image list")),
            }
        },
    }
}

} // verus!
