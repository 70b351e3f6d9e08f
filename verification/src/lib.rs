//! Verified core of a small image-gallery web server.
//!
//! The library holds everything the server decides or computes: how a
//! thumbnail file is named after its original, which thumbnails are still
//! missing, how the gallery page is assembled from a template, and what
//! status, content type and body each route answers with.  The surrounding
//! binary only moves bytes between this library and the filesystem or the
//! network.

pub mod content;
pub mod gallery;
pub mod names;
pub mod plan;
pub mod reply;
pub mod thumbs;
