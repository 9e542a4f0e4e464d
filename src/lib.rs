//! Sorting of a media library: a byte cursor, parsers that find the capture
//! time in EXIF, RIFF and QuickTime data, a content hash that ignores JPEG
//! metadata, and the planner that turns indexed files into copy, move and
//! delete actions.

pub mod metadata_parser;
pub mod models;
pub mod sorting;
pub mod timestamp;
pub mod util;
