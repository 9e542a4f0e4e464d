pub mod datetime_parser;
pub mod exif_parser;
pub mod quicktime_parser;
pub mod riff_parser;
