//! The full record of a track: artist, title, album, track number and year.

use vstd::prelude::*;
use crate::album::{album_of, AlbumInfo, EARLIEST_YEAR};
use crate::clock::{latest_year, EPOCH_YEAR};
use crate::number::{i32_text, parse_i32, parse_u32, u32_text};
use crate::scan::{find_last_char, last_index};
use crate::text::{char_vec, known_text, trim_or_unknown, trimmed, unknown, unknown_text,
    well_formed_text};
use crate::track::{track_of, TrackInfo};

verus! {

/// Artist, title, album, track number and year of a track. A text field that
/// is not known is `empty`; an unknown track number or year is `0`.
pub struct ID3TagInfo {
    pub artist: String,
    pub title: String,
    pub album: String,
    pub track: u32,
    pub year: i32,
}

/// The model of an `ID3TagInfo`.
pub struct TagFields {
    pub artist: Seq<char>,
    pub title: Seq<char>,
    pub album: Seq<char>,
    pub track: int,
    pub year: int,
}

impl View for ID3TagInfo {
    type V = TagFields;

    open spec fn view(&self) -> TagFields {
        TagFields {
            artist: self.artist@,
            title: self.title@,
            album: self.album@,
            track: self.track as int,
            year: self.year as int,
        }
    }
}

/// The record in which nothing is known.
pub open spec fn unknown_fields() -> TagFields {
    TagFields {
        artist: unknown_text(),
        title: unknown_text(),
        album: unknown_text(),
        track: 0,
        year: 0,
    }
}

/// What a path says of a track, with `current_year` as the latest year that
/// counts: nothing when it holds no `/` (one at the very start counts);
/// otherwise artist, album and year
/// from the directory that holds the file, and track number and title from
/// the file name.
pub open spec fn metadata_of(path: Seq<char>, current_year: int) -> TagFields {
    if last_index(path, '/') is None {
        unknown_fields()
    } else {
        let a = album_of(path, current_year);
        let t = track_of(path);
        TagFields { artist: a.artist, title: t.title, album: a.album, track: t.track, year: a.year }
    }
}

/// A text field read from a tag: trimmed, and unknown when absent or when
/// nothing is left of it.
pub open spec fn tag_text(t: Option<Seq<char>>) -> Seq<char> {
    match t {
        Some(s) => known_text(trimmed(s)),
        None => unknown_text(),
    }
}

/// A year read from a tag: unknown when absent or negative.
pub open spec fn tag_year(y: Option<i32>) -> int {
    match y {
        Some(v) => if v >= 0 {
            v as int
        } else {
            0
        },
        None => 0,
    }
}

/// A track number read from a tag: unknown when absent.
pub open spec fn tag_track(t: Option<u32>) -> int {
    match t {
        Some(v) => v as int,
        None => 0,
    }
}

/// The number of fields on which `a` and `b` agree.
pub open spec fn agreeing_fields(a: TagFields, b: TagFields) -> nat {
    (if a.artist == b.artist { 1nat } else { 0nat }) + (if a.title == b.title { 1nat } else { 0nat })
        + (if a.album == b.album { 1nat } else { 0nat }) + (if a.track == b.track { 1nat } else { 0nat })
        + (if a.year == b.year { 1nat } else { 0nat })
}

/// Every field of `t` is unknown (a track number below 1 and a year before
/// 1900 count as unknown).
pub open spec fn all_unknown(t: TagFields) -> bool {
    &&& t.artist == unknown_text()
    &&& t.title == unknown_text()
    &&& t.album == unknown_text()
    &&& t.track < 1
    &&& t.year < EARLIEST_YEAR
}

/// Some field of `t` is unknown.
pub open spec fn some_unknown(t: TagFields) -> bool {
    ||| t.artist == unknown_text()
    ||| t.title == unknown_text()
    ||| t.album == unknown_text()
    ||| t.track < 1
    ||| t.year < EARLIEST_YEAR
}

/// A text field of a tag, as `tag_text` says.
fn text_from_tag(t: Option<&str>) -> (r: String)
    ensures
        r@ == tag_text(match t {
            Some(s) => Some(s@),
            None => None,
        }),
        well_formed_text(r@),
{
    match t {
        Some(s) => trim_or_unknown(s),
        None => unknown(),
    }
}

impl ID3TagInfo {
    /// The record in which nothing is known.
    pub fn unknown_record() -> (r: ID3TagInfo)
        ensures
            r@ == unknown_fields(),
    {
        ID3TagInfo { artist: unknown(), title: unknown(), album: unknown(), track: 0, year: 0 }
    }

    /// Builds the record from the fields read from a file's tag; `None`
    /// stands for a field that the tag lacks, or for every field when no tag
    /// could be read.
    pub fn read(
        artist: Option<&str>,
        title: Option<&str>,
        album: Option<&str>,
        year: Option<i32>,
        track: Option<u32>,
    ) -> (r: ID3TagInfo)
        ensures
            r@.artist == tag_text(match artist {
                Some(s) => Some(s@),
                None => None,
            }),
            r@.title == tag_text(match title {
                Some(s) => Some(s@),
                None => None,
            }),
            r@.album == tag_text(match album {
                Some(s) => Some(s@),
                None => None,
            }),
            r@.year == tag_year(year),
            r@.track == tag_track(track),
            well_formed_text(r@.artist),
            well_formed_text(r@.title),
            well_formed_text(r@.album),
    {
        let year_value: i32 = match year {
            Some(v) => if v >= 0 {
                v
            } else {
                0
            },
            None => 0,
        };
        let track_value: u32 = match track {
            Some(v) => v,
            None => 0,
        };
        ID3TagInfo {
            artist: text_from_tag(artist),
            title: text_from_tag(title),
            album: text_from_tag(album),
            track: track_value,
            year: year_value,
        }
    }

    /// Reads the record from a path laid out as
    /// `ARTIST - YEAR - ALBUM / TRACK - TITLE`, with `current_year` as the
    /// latest year that counts.
    pub fn parse_in_year(input: &str, current_year: i32) -> (r: ID3TagInfo)
        ensures
            r@ == metadata_of(input@, current_year as int),
            r@.year == 0 || EARLIEST_YEAR <= r@.year <= current_year,
            r@.track == 0 || 1 <= r@.track <= 99,
            well_formed_text(r@.artist),
            well_formed_text(r@.title),
            well_formed_text(r@.album),
    {
        let chars = char_vec(input);
        if find_last_char(chars.as_slice(), '/').is_none() {
            return ID3TagInfo::unknown_record();
        }
        let a = AlbumInfo::parse_in_year(input, current_year);
        let t = TrackInfo::parse(input);
        ID3TagInfo { artist: a.artist, title: t.title, album: a.album, track: t.track, year: a.year }
    }

    /// Reads the record from a path laid out as
    /// `ARTIST - YEAR - ALBUM / TRACK - TITLE`, with the year of the system
    /// clock as the latest year that counts. When the clock cannot tell the
    /// year, no year counts.
    pub fn parse(input: &str) -> (r: ID3TagInfo)
        ensures
            exists|current_year: i32|
                (current_year == 0 || current_year >= EPOCH_YEAR) && r@
                    == metadata_of(input@, current_year as int),
            well_formed_text(r@.artist),
            well_formed_text(r@.title),
            well_formed_text(r@.album),
    {
        let current_year = latest_year();
        ID3TagInfo::parse_in_year(input, current_year)
    }

    /// Builds the record from five given fields, reading the track number as
    /// a `u32` and the year as an `i32`; either is `0` when its text is not
    /// such a number.
    pub fn force(artist: &str, year: &str, album: &str, track: &str, title: &str) -> (r: ID3TagInfo)
        ensures
            r@.artist == artist@,
            r@.title == title@,
            r@.album == album@,
            r@.track == match u32_text(track@) {
                Some(v) => v,
                None => 0,
            },
            r@.year == match i32_text(year@) {
                Some(v) => v,
                None => 0,
            },
    {
        let track_chars = char_vec(track);
        let year_chars = char_vec(year);
        let track_value = match parse_u32(track_chars.as_slice()) {
            Some(v) => v,
            None => 0,
        };
        let year_value = match parse_i32(year_chars.as_slice()) {
            Some(v) => v,
            None => 0,
        };
        ID3TagInfo {
            artist: artist.to_owned(),
            title: title.to_owned(),
            album: album.to_owned(),
            track: track_value,
            year: year_value,
        }
    }
}

/// How many of the five fields `tag` and `orig` share.
pub fn compare_tags(tag: &ID3TagInfo, orig: &ID3TagInfo) -> (r: u8)
    ensures
        r == agreeing_fields(tag@, orig@),
{
    let mut count: u8 = 0;
    if tag.artist == orig.artist {
        count = count + 1;
    }
    if tag.title == orig.title {
        count = count + 1;
    }
    if tag.album == orig.album {
        count = count + 1;
    }
    if tag.track == orig.track {
        count = count + 1;
    }
    if tag.year == orig.year {
        count = count + 1;
    }
    count
}

/// Whether every field of `tag` is unknown.
pub fn is_empty(tag: &ID3TagInfo) -> (r: bool)
    ensures
        r == all_unknown(tag@),
{
    let unknown_text = unknown();
    tag.artist == unknown_text && tag.title == unknown_text && tag.album == unknown_text
        && tag.track < 1 && tag.year < EARLIEST_YEAR
}

/// `1` when some field of `tag` is unknown, `0` when none is.
pub fn empty_count(tag: &ID3TagInfo) -> (r: i16)
    ensures
        r == if some_unknown(tag@) {
            1int
        } else {
            0int
        },
{
    let unknown_text = unknown();
    if tag.artist == unknown_text || tag.title == unknown_text || tag.album == unknown_text
        || tag.track < 1 || tag.year < EARLIEST_YEAR {
        1
    } else {
        0
    }
}

/// What to do with a new record for a file that holds `orig`.
#[derive(Clone, Copy, Debug, PartialEq, Eq, Structural)]
pub enum WritePlan {
    /// Every field of the new record is unknown: nothing is written.
    Incomplete,
    /// The new record agrees with the file's on every field: nothing to write.
    Unchanged,
    /// The new record is written to the file.
    Update,
}

/// The plan for writing `tag` over `orig`, as `plan_write` decides it.
pub open spec fn write_plan(tag: TagFields, orig: TagFields) -> WritePlan {
    if all_unknown(tag) {
        WritePlan::Incomplete
    } else if agreeing_fields(tag, orig) == 5 {
        WritePlan::Unchanged
    } else {
        WritePlan::Update
    }
}

/// Decides whether `tag` is written over `orig`: not when all its fields are
/// unknown, nor when it agrees with `orig` on all five fields.
pub fn plan_write(tag: &ID3TagInfo, orig: &ID3TagInfo) -> (r: WritePlan)
    ensures
        r == write_plan(tag@, orig@),
{
    if is_empty(tag) {
        WritePlan::Incomplete
    } else if compare_tags(tag, orig) == 5 {
        WritePlan::Unchanged
    } else {
        WritePlan::Update
    }
}

} // verus!
