use chrono::Datelike;
use id3handler::clock::{current_year, latest_year};
use id3handler::album::{directory_segment_of, AlbumInfo};
use id3handler::tag::ID3TagInfo;
use id3handler::track::{track_name_of, TrackInfo};

const WALL: &str = "/music/Pink Floyd - 1979 - The Wall/01 - Another Brick in the Wall.mp3";

#[test]
fn album_with_year_between_hyphens() {
    let a = AlbumInfo::parse_in_year(WALL, 2026);
    assert_eq!(a.artist, "Pink Floyd");
    assert_eq!(a.year, 1979);
    assert_eq!(a.album, "The Wall");
}

#[test]
fn track_with_leading_number() {
    let t = TrackInfo::parse(WALL);
    assert_eq!(t.track, 1);
    assert_eq!(t.title, "Another Brick in the Wall");
}

#[test]
fn album_with_clock_year() {
    let a = AlbumInfo::parse(WALL);
    assert_eq!(a.artist, "Pink Floyd");
    assert_eq!(a.year, 1979);
    assert_eq!(a.album, "The Wall");
}

#[test]
fn short_directory_is_artist_only() {
    let a = AlbumInfo::parse_in_year("/music/SoloArtist/file.mp3", 2026);
    assert_eq!(a.artist, "SoloArtist");
    assert_eq!(a.album, "empty");
    assert_eq!(a.year, 0);
}

#[test]
fn short_year_directory_has_unknown_year() {
    let a = AlbumInfo::parse_in_year("/music/1999/file.mp3", 2026);
    assert_eq!(a.artist, "1999");
    assert_eq!(a.album, "empty");
    assert_eq!(a.year, 0);
}

#[test]
fn one_hyphen_takes_current_year() {
    let a = AlbumInfo::parse_in_year("/music/Artist - Album/05.mp3", 2026);
    assert_eq!(a.artist, "Artist");
    assert_eq!(a.album, "Album");
    assert_eq!(a.year, 2026);
}

#[test]
fn one_hyphen_takes_clock_year() {
    let a = AlbumInfo::parse("/music/Artist - Album/05.mp3");
    assert_eq!(a.artist, "Artist");
    assert_eq!(a.album, "Album");
    assert_eq!(a.year, chrono::Utc::now().year());
}

#[test]
fn one_hyphen_before_1900_is_unknown_year() {
    let a = AlbumInfo::parse_in_year("/music/Artist - Album/05.mp3", 1850);
    assert_eq!(a.year, 0);
}

#[test]
fn two_hyphens_without_year() {
    let a = AlbumInfo::parse_in_year("/x/Artist - 20xx - Album/01 - a.mp3", 2026);
    assert_eq!(a.artist, "Artist");
    assert_eq!(a.album, "Album");
    assert_eq!(a.year, 0);
}

#[test]
fn year_before_1900_is_dropped() {
    let a = AlbumInfo::parse_in_year("/m/Band - 1850 - Old/01 - x.mp3", 2026);
    assert_eq!(a.artist, "Band");
    assert_eq!(a.year, 0);
    assert_eq!(a.album, "Old");
}

#[test]
fn implausible_year_is_passed_over() {
    let a = AlbumInfo::parse_in_year("/m/Cat 1234 and 1999 Best/01 - x.mp3", 2026);
    assert_eq!(a.artist, "Cat 1234 and");
    assert_eq!(a.year, 1999);
    assert_eq!(a.album, "Best");
}

#[test]
fn future_year_is_passed_over() {
    let a = AlbumInfo::parse_in_year("/m/Band - 2030 - Next/01 - x.mp3", 2026);
    assert_eq!(a.artist, "Band");
    assert_eq!(a.album, "Next");
    assert_eq!(a.year, 0);
}

#[test]
fn long_name_without_hyphen_is_artist() {
    let a = AlbumInfo::parse_in_year("/m/Long Artist Name/01 - x.mp3", 2026);
    assert_eq!(a.artist, "Long Artist Name");
    assert_eq!(a.album, "empty");
    assert_eq!(a.year, 0);
}

#[test]
fn dot_directory_is_unknown_artist() {
    let a = AlbumInfo::parse_in_year("./file.mp3", 2026);
    assert_eq!(a.artist, "empty");
    assert_eq!(a.album, "empty");
    assert_eq!(a.year, 0);
}

#[test]
fn directory_segment_cases() {
    assert_eq!(directory_segment_of("/a/b/c.mp3"), "b");
    assert_eq!(directory_segment_of("b/c.mp3"), "b");
    assert_eq!(directory_segment_of("c.mp3"), "c.mp3");
}

#[test]
fn track_name_cases() {
    assert_eq!(track_name_of("/a/b/01 - x.mp3"), "01 - x");
    assert_eq!(track_name_of("/a.b/song"), "song");
    assert_eq!(track_name_of("track.mp3"), "track");
}

#[test]
fn short_name_without_digits() {
    let t = TrackInfo::parse("track.mp3");
    assert_eq!(t.track, 0);
    assert_eq!(t.title, "track");
}

#[test]
fn short_number_name() {
    let t = TrackInfo::parse("/music/Artist - Album/05.mp3");
    assert_eq!(t.track, 5);
    assert_eq!(t.title, "05");
}

#[test]
fn track_number_then_dot() {
    let t = TrackInfo::parse("/m/a/07. Song Name.mp3");
    assert_eq!(t.track, 7);
    assert_eq!(t.title, "Song Name");
}

#[test]
fn track_split_on_hyphen() {
    let t = TrackInfo::parse("/m/a/Intro - Song.mp3");
    assert_eq!(t.track, 0);
    assert_eq!(t.title, "Song");
}

#[test]
fn three_digit_run_is_no_track() {
    let t = TrackInfo::parse("/m/a/123 Song.mp3");
    assert_eq!(t.track, 0);
    assert_eq!(t.title, "123 Song");
}

#[test]
fn track_number_at_end_is_not_seen() {
    let t = TrackInfo::parse("/m/a/Song 12.mp3");
    assert_eq!(t.track, 0);
    assert_eq!(t.title, "Song 12");
}

#[test]
fn bare_file_name_is_unknown() {
    let r = ID3TagInfo::parse_in_year("track.mp3", 2026);
    assert_eq!(r.artist, "empty");
    assert_eq!(r.title, "empty");
    assert_eq!(r.album, "empty");
    assert_eq!(r.track, 0);
    assert_eq!(r.year, 0);
    let c = ID3TagInfo::parse("Pink Floyd - 1979 - The Wall.mp3");
    assert_eq!(c.artist, "empty");
    assert_eq!(c.year, 0);
}

#[test]
fn full_path_record() {
    let r = ID3TagInfo::parse_in_year(WALL, 2026);
    assert_eq!(r.artist, "Pink Floyd");
    assert_eq!(r.title, "Another Brick in the Wall");
    assert_eq!(r.album, "The Wall");
    assert_eq!(r.track, 1);
    assert_eq!(r.year, 1979);
}

#[test]
fn override_string_record() {
    let r = ID3TagInfo::parse("Pink Floyd - 1979 - The Wall / 03 - Hey You");
    assert_eq!(r.artist, "Pink Floyd");
    assert_eq!(r.album, "The Wall");
    assert_eq!(r.year, 1979);
    assert_eq!(r.track, 3);
    assert_eq!(r.title, "Hey You");
}

#[test]
fn year_at_start_leaves_artist_unknown() {
    let a = AlbumInfo::parse_in_year("/m/1979 - X/a.mp3", 2026);
    assert_eq!(a.artist, "empty");
    assert_eq!(a.year, 1979);
    assert_eq!(a.album, "X");
    let b = AlbumInfo::parse_in_year("-/a", 2026);
    assert_eq!(b.artist, "empty");
    assert_eq!(b.album, "empty");
    let r = ID3TagInfo::parse_in_year("-/a", 2026);
    assert_eq!(r.artist, "empty");
}

#[test]
fn album_after_year_missing_is_unknown() {
    let a = AlbumInfo::parse_in_year("/m/Band - 1999 -/a.mp3", 2026);
    assert_eq!(a.artist, "Band");
    assert_eq!(a.year, 1999);
    assert_eq!(a.album, "empty");
}

#[test]
fn title_of_separators_is_unknown() {
    let t = TrackInfo::parse("/x/01 - -.mp3");
    assert_eq!(t.track, 1);
    assert_eq!(t.title, "empty");
}

#[test]
fn clock_gives_this_year() {
    assert_eq!(current_year(), Some(chrono::Utc::now().year()));
    assert_eq!(latest_year(), chrono::Utc::now().year());
}

#[test]
fn unreadable_clock_year_counts_no_year() {
    let a = AlbumInfo::parse_in_year(WALL, 0);
    assert_eq!(a.artist, "Pink Floyd");
    assert_eq!(a.year, 0);
}
