//! Artist, year and album, read from the name of the directory that holds a
//! track.

use vstd::prelude::*;
use crate::clock::{latest_year, EPOCH_YEAR};
use crate::number::{accepted_run_end, find_verified_number, verified_run, verified_value,
    verify_number};
use crate::scan::{at_char, find_first_char, find_last_char, first_index, get_char_count,
    last_index, lemma_count_where_none, lemma_count_where_one, lemma_first_where_found,
    lemma_last_where_found, occurrences};
use crate::text::{char_vec, get_string_between, known_text, same_text, trim_or_unknown, trimmed,
    unknown, unknown_text, well_formed_text};

verus! {

/// The earliest year that the search for a year in a directory name takes.
pub const EARLIEST_YEAR_SEEN: i32 = 1800;

/// The earliest year that is kept as a release year.
pub const EARLIEST_YEAR: i32 = 1900;

/// A directory name this long or shorter, without a `-`, names an artist only.
pub const SHORT_NAME: usize = 10;

/// Artist, album and release year of a track, as a directory name gives them.
/// A text field that could not be read is `empty`; an unknown year is `0`.
pub struct AlbumInfo {
    pub artist: String,
    pub album: String,
    pub year: i32,
}

/// The model of an `AlbumInfo`.
pub struct AlbumFields {
    pub artist: Seq<char>,
    pub album: Seq<char>,
    pub year: int,
}

impl View for AlbumInfo {
    type V = AlbumFields;

    open spec fn view(&self) -> AlbumFields {
        AlbumFields { artist: self.artist@, album: self.album@, year: self.year as int }
    }
}

/// The name of the directory that holds the file at `path`: what stands
/// between the last two `/`, or before the last `/` when there is one `/`.
/// A path without `/` is taken whole. A `/` at the very start counts like any
/// other, so `/x.mp3` lies in a directory with an empty name.
pub open spec fn directory_segment(path: Seq<char>) -> Seq<char> {
    match last_index(path, '/') {
        None => path,
        Some(i) => {
            let d = path.subrange(0, i);
            match last_index(d, '/') {
                None => d,
                Some(j) => d.subrange(j + 1, d.len() as int),
            }
        },
    }
}

/// The views of an optional text.
pub open spec fn text_view(t: Option<String>) -> Option<Seq<char>> {
    match t {
        Some(s) => Some(s@),
        None => None,
    }
}

/// The fields once artist and album are trimmed; a text of which nothing is
/// left, or an album of `None`, is unknown. An artist of a bare `.` beside an
/// unknown album is unknown too.
pub open spec fn finished_album(artist: Seq<char>, album: Option<Seq<char>>, year: int) -> AlbumFields {
    let a = known_text(trimmed(artist));
    let b = match album {
        Some(x) => known_text(trimmed(x)),
        None => unknown_text(),
    };
    AlbumFields {
        artist: if a == seq!['.'] && b == unknown_text() {
            unknown_text()
        } else {
            a
        },
        album: b,
        year,
    }
}

/// What a directory name says, with `current_year` as the latest year that
/// counts.
///
/// A short name without `-` is the artist alone. Otherwise the first run of
/// four digits that writes a year from 1800 on splits the name into artist,
/// year and album. Without such a year, the first and last `-` split it into
/// artist, year and album; a single `-` splits it into artist and album, and
/// the year is the current one; without `-` the name is the artist. A year is
/// kept from 1900 to `current_year`, and is unknown otherwise.
pub open spec fn album_of(path: Seq<char>, current_year: int) -> AlbumFields {
    let seg = directory_segment(path);
    let n = seg.len() as int;
    let hyphens = occurrences(seg, '-');
    if n <= SHORT_NAME && hyphens == 0 {
        finished_album(seg, None, 0)
    } else {
        match verified_run(seg, EARLIEST_YEAR_SEEN as int, current_year, 4) {
            Some(pos) => finished_album(
                seg.subrange(0, pos),
                Some(seg.subrange(pos + 4, n)),
                verified_value(seg.subrange(pos, pos + 4), EARLIEST_YEAR as int, current_year),
            ),
            None => if hyphens > 1 {
                let f = first_index(seg, '-')->0;
                let l = last_index(seg, '-')->0;
                finished_album(
                    seg.subrange(0, f),
                    Some(seg.subrange(l + 1, n)),
                    verified_value(seg.subrange(f + 1, l), EARLIEST_YEAR as int, current_year),
                )
            } else if hyphens == 1 {
                let f = first_index(seg, '-')->0;
                finished_album(
                    seg.subrange(0, f),
                    Some(seg.subrange(f + 1, n)),
                    if EARLIEST_YEAR <= current_year {
                        current_year
                    } else {
                        0
                    },
                )
            } else {
                finished_album(seg, None, verified_value(seg, EARLIEST_YEAR as int, current_year))
            },
        }
    }
}

/// The name of the directory that holds the file at `path`.
pub fn directory_segment_of(path: &str) -> (r: String)
    ensures
        r@ == directory_segment(path@),
{
    let chars = char_vec(path);
    match find_last_char(chars.as_slice(), '/') {
        None => path.to_owned(),
        Some(i) => {
            let d = get_string_between(path, 0, i);
            let d_chars = char_vec(d.as_str());
            match find_last_char(d_chars.as_slice(), '/') {
                None => d,
                Some(j) => get_string_between(d.as_str(), j + 1, d_chars.len()),
            }
        },
    }
}

/// Trims artist and album into the finished fields.
fn finish_album(artist: String, album: Option<String>, year: i32) -> (r: AlbumInfo)
    ensures
        r@ == finished_album(artist@, text_view(album), year as int),
        well_formed_text(r@.artist),
        well_formed_text(r@.album),
{
    let a = trim_or_unknown(artist.as_str());
    let b = match album {
        Some(x) => trim_or_unknown(x.as_str()),
        None => unknown(),
    };
    proof {
        reveal_strlit(".");
        reveal_strlit("empty");
        assert("."@ == seq!['.']);
        assert("empty"@ == unknown_text());
    }
    let a = if same_text(a.as_str(), ".") && same_text(b.as_str(), "empty") {
        unknown()
    } else {
        a
    };
    AlbumInfo { artist: a, album: b, year }
}

impl AlbumInfo {
    /// Reads artist, album and year from the directory that holds the file at
    /// `path`, with `current_year` as the latest year that counts.
    pub fn parse_in_year(path: &str, current_year: i32) -> (r: AlbumInfo)
        ensures
            r@ == album_of(path@, current_year as int),
            r@.year == 0 || EARLIEST_YEAR <= r@.year <= current_year,
            well_formed_text(r@.artist),
            well_formed_text(r@.album),
    {
        let seg = directory_segment_of(path);
        let chars = char_vec(seg.as_str());
        let n = chars.len();
        let hyphens = get_char_count(chars.as_slice(), '-');
        if n <= SHORT_NAME && hyphens == 0 {
            return finish_album(seg, None, 0);
        }
        match find_verified_number(seg.as_str(), EARLIEST_YEAR_SEEN, current_year, 4) {
            Some(pos) => {
                proof {
                    lemma_first_where_found(
                        accepted_run_end(seg@, EARLIEST_YEAR_SEEN as int, current_year as int, 4),
                        0,
                        n as int,
                    );
                }
                let artist = get_string_between(seg.as_str(), 0, pos);
                let year_text = get_string_between(seg.as_str(), pos, pos + 4);
                let album = get_string_between(seg.as_str(), pos + 4, n);
                let year = verify_number(year_text.as_str(), EARLIEST_YEAR, current_year);
                finish_album(artist, Some(album), year)
            },
            None => {
                let first = find_first_char(chars.as_slice(), '-');
                let last = find_last_char(chars.as_slice(), '-');
                let ghost p = at_char(seg@, '-');
                proof {
                    lemma_first_where_found(p, 0, n as int);
                    lemma_last_where_found(p, 0, n as int);
                    if first is None {
                        lemma_count_where_none(p, 0, n as int);
                    }
                }
                if hyphens > 1 {
                    let f = first.unwrap();
                    let l = last.unwrap();
                    proof {
                        if f == l {
                            lemma_count_where_one(p, 0, n as int, f as int);
                        }
                    }
                    let artist = get_string_between(seg.as_str(), 0, f);
                    let year_text = get_string_between(seg.as_str(), f + 1, l);
                    let album = get_string_between(seg.as_str(), l + 1, n);
                    let year = verify_number(year_text.as_str(), EARLIEST_YEAR, current_year);
                    finish_album(artist, Some(album), year)
                } else if hyphens == 1 {
                    let f = first.unwrap();
                    let artist = get_string_between(seg.as_str(), 0, f);
                    let album = get_string_between(seg.as_str(), f + 1, n);
                    let year = if EARLIEST_YEAR <= current_year {
                        current_year
                    } else {
                        0
                    };
                    finish_album(artist, Some(album), year)
                } else {
                    let year = verify_number(seg.as_str(), EARLIEST_YEAR, current_year);
                    finish_album(seg, None, year)
                }
            },
        }
    }

    /// Reads artist, album and year from the directory that holds the file at
    /// `path`, with the year of the system clock as the latest year that
    /// counts. When the clock cannot tell the year, no year counts.
    pub fn parse(path: &str) -> (r: AlbumInfo)
        ensures
            exists|current_year: i32|
                (current_year == 0 || current_year >= EPOCH_YEAR) && r@
                    == album_of(path@, current_year as int),
            well_formed_text(r@.artist),
            well_formed_text(r@.album),
    {
        let current_year = latest_year();
        AlbumInfo::parse_in_year(path, current_year)
    }
}

} // verus!
