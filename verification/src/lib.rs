//! Frame composition for zoom-and-cursor demo videos: timeline lookup,
//! crop windows, cursor overlay, resizing and the ffmpeg command lines.

pub mod cursor;
pub mod timeline;
pub mod crop;
pub mod image_ops;
pub mod compose;
pub mod text;
pub mod command;
