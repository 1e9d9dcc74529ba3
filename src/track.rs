//! Track number and title, read from a file name.

use vstd::prelude::*;
use crate::number::{verified_value, verify_number};
use crate::scan::{find_first_char, find_last_char, find_number, first_index, last_index,
    numeric_run};
use crate::text::{char_vec, get_string_between, known_text, trim_or_unknown, trimmed,
    well_formed_text};

verus! {

/// A file name longer than this is searched for a track number.
pub const SHORT_FILE_NAME: usize = 5;

/// The number of digits of a track number.
pub const TRACK_DIGITS: usize = 2;

/// The number of characters that part a track number from the title.
pub const TRACK_SEPARATOR: usize = 2;

/// The least track number.
pub const FIRST_TRACK: i32 = 1;

/// The greatest track number.
pub const LAST_TRACK: i32 = 99;

/// Title and track number of a track, as a file name gives them. An unknown
/// track number is `0`.
pub struct TrackInfo {
    pub title: String,
    pub track: u32,
}

/// The model of a `TrackInfo`.
pub struct TrackFields {
    pub title: Seq<char>,
    pub track: int,
}

impl View for TrackInfo {
    type V = TrackFields;

    open spec fn view(&self) -> TrackFields {
        TrackFields { title: self.title@, track: self.track as int }
    }
}

/// The name of the file at `path`, without the directories before it and
/// without its extension (from its last `.` on).
pub open spec fn track_name(path: Seq<char>) -> Seq<char> {
    let file = match last_index(path, '/') {
        None => path,
        Some(i) => path.subrange(i + 1, path.len() as int),
    };
    match last_index(file, '.') {
        None => file,
        Some(i) => file.subrange(0, i),
    }
}

/// The fields once the title is trimmed (unknown where nothing is left of
/// it) and the track number checked.
pub open spec fn finished_track(track: Seq<char>, title: Seq<char>) -> TrackFields {
    TrackFields {
        title: known_text(trimmed(title)),
        track: verified_value(track, FIRST_TRACK as int, LAST_TRACK as int),
    }
}

/// What a file name says.
///
/// In a name longer than five characters, the first run of exactly two
/// digits closed by a non-digit is the track number, and the title follows
/// it after two separating characters. Without such a run, the first `-`
/// (also one at the very start) parts track number from title. Otherwise the
/// name stands for both, and the
/// track number is unknown unless the name is one. The title is trimmed, and
/// unknown where nothing is left of it; a track number is kept from 1 to 99.
pub open spec fn track_of(path: Seq<char>) -> TrackFields {
    let name = track_name(path);
    let n = name.len() as int;
    if n > SHORT_FILE_NAME {
        match numeric_run(name, 0, TRACK_DIGITS as int) {
            Some(pos) => {
                let rest = if pos + 4 <= n {
                    pos + 4
                } else {
                    n
                };
                finished_track(name.subrange(pos, pos + 2), name.subrange(rest, n))
            },
            None => match first_index(name, '-') {
                Some(f) => finished_track(name.subrange(0, f), name.subrange(f + 1, n)),
                None => finished_track(name, name),
            },
        }
    } else {
        finished_track(name, name)
    }
}

/// The name of the file at `path`, without directories and extension.
pub fn track_name_of(path: &str) -> (r: String)
    ensures
        r@ == track_name(path@),
{
    let chars = char_vec(path);
    let n = chars.len();
    let file = match find_last_char(chars.as_slice(), '/') {
        None => path.to_owned(),
        Some(i) => get_string_between(path, i + 1, n),
    };
    let file_chars = char_vec(file.as_str());
    match find_last_char(file_chars.as_slice(), '.') {
        None => file,
        Some(i) => get_string_between(file.as_str(), 0, i),
    }
}

/// Trims the title and checks the track number.
fn finish_track(track: &str, title: &str) -> (r: TrackInfo)
    ensures
        r@ == finished_track(track@, title@),
        well_formed_text(r@.title),
{
    let number = verify_number(track, FIRST_TRACK, LAST_TRACK);
    TrackInfo { title: trim_or_unknown(title), track: number as u32 }
}

impl TrackInfo {
    /// Reads track number and title from the name of the file at `path`.
    pub fn parse(path: &str) -> (r: TrackInfo)
        ensures
            r@ == track_of(path@),
            r@.track == 0 || FIRST_TRACK <= r@.track <= LAST_TRACK,
            well_formed_text(r@.title),
    {
        let name = track_name_of(path);
        let chars = char_vec(name.as_str());
        let n = chars.len();
        if n > SHORT_FILE_NAME {
            match find_number(chars.as_slice(), 0, TRACK_DIGITS) {
                Some(pos) => {
                    let rest = if n - (pos + TRACK_DIGITS) >= TRACK_SEPARATOR {
                        pos + TRACK_DIGITS + TRACK_SEPARATOR
                    } else {
                        n
                    };
                    let track = get_string_between(name.as_str(), pos, pos + TRACK_DIGITS);
                    let title = get_string_between(name.as_str(), rest, n);
                    finish_track(track.as_str(), title.as_str())
                },
                None => match find_first_char(chars.as_slice(), '-') {
                    Some(f) => {
                        let track = get_string_between(name.as_str(), 0, f);
                        let title = get_string_between(name.as_str(), f + 1, n);
                        finish_track(track.as_str(), title.as_str())
                    },
                    None => finish_track(name.as_str(), name.as_str()),
                },
            }
        } else {
            finish_track(name.as_str(), name.as_str())
        }
    }
}

} // verus!
