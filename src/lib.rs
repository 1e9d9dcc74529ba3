//! Infers audio-track metadata (artist, year, album, track number, title)
//! from a file path laid out as `ARTIST - YEAR - ALBUM / TRACK - TITLE`.

pub mod scan;
pub mod text;
pub mod number;
pub mod clock;
pub mod album;
pub mod track;
pub mod tag;
