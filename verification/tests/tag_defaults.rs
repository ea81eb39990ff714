use music_manager::paths::{has_mp3_extension, parent_or_unknown};
use music_manager::song_settings::{assign_tag, build_record, RawTag};

#[test]
fn present_fields_are_kept() {
    let raw = RawTag {
        artist: Some("A".to_string()),
        title: Some("T".to_string()),
        album: Some("L".to_string()),
        year: Some(1999),
        genre: Some("G".to_string()),
        track: Some(3),
    };
    let info = assign_tag(&raw, 2024);
    assert_eq!(info.artist, "A");
    assert_eq!(info.title, "T");
    assert_eq!(info.album, "L");
    assert_eq!(info.year, 1999);
    assert_eq!(info.genre, "G");
    assert_eq!(info.track, 3);
}

#[test]
fn missing_fields_are_defaulted() {
    let raw = RawTag { artist: None, title: None, album: None, year: None, genre: None, track: None };
    let info = assign_tag(&raw, 2024);
    assert_eq!(info.artist, "Unknown");
    assert_eq!(info.title, "Unknown");
    assert_eq!(info.album, "Unknown");
    assert_eq!(info.year, 2024);
    assert_eq!(info.genre, "Unknown");
    assert_eq!(info.track, 0);
}

#[test]
fn unrepresentable_track_number_becomes_zero() {
    let raw = RawTag {
        artist: None,
        title: None,
        album: None,
        year: None,
        genre: None,
        track: Some(3_000_000_000),
    };
    let info = assign_tag(&raw, 2024);
    assert_eq!(info.track, 0);
}

#[test]
fn record_carries_path_and_parent() {
    let raw = RawTag {
        artist: Some("A".to_string()),
        title: Some("T".to_string()),
        album: Some("L".to_string()),
        year: Some(2001),
        genre: Some("G".to_string()),
        track: Some(1),
    };
    let info = assign_tag(&raw, 2024);
    let rec = build_record(info, "/music/L/track.mp3");
    assert_eq!(rec.path, "/music/L/track.mp3");
    assert_eq!(rec.album_path, "/music/L");
    assert_eq!(rec.title, "T");
}

#[test]
fn pathless_file_gets_unknown_album_path() {
    let raw = RawTag { artist: None, title: None, album: None, year: None, genre: None, track: None };
    let info = assign_tag(&raw, 2024);
    let rec = build_record(info, "track.mp3");
    assert_eq!(rec.album_path, "Unknown");
}

#[test]
fn mp3_extension_is_recognized() {
    assert!(has_mp3_extension("/a/b/c.mp3"));
    assert!(has_mp3_extension("x.mp3"));
    assert!(!has_mp3_extension(".mp3x"));
    assert!(!has_mp3_extension("/a/b/c.flac"));
    assert!(!has_mp3_extension("mp3"));
    assert!(!has_mp3_extension(""));
}

#[test]
fn parent_directory_is_the_prefix_before_the_last_separator() {
    assert_eq!(parent_or_unknown("/a/b/c.mp3"), "/a/b");
    assert_eq!(parent_or_unknown("dir/file.mp3"), "dir");
    assert_eq!(parent_or_unknown("file.mp3"), "Unknown");
    assert_eq!(parent_or_unknown("/file.mp3"), "");
}
