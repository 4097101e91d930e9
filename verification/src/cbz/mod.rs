//! Comic book archives: zip files of page images.

pub mod archive;
pub mod error;
