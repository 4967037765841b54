//! Services over the image store on disk.
pub mod image;
