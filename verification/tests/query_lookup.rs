use music_manager::catalog::{Catalog, Song};
use music_manager::query::QueryError;
use music_manager::song_settings::MetadataRecord;

fn record(artist: &str, title: &str, album: &str, year: i32) -> MetadataRecord {
    MetadataRecord {
        title: title.to_string(),
        artist: artist.to_string(),
        album: album.to_string(),
        track: 1,
        year,
        genre: "Rock".to_string(),
        path: format!("/m/{}/{}.mp3", album, title),
        album_path: format!("/m/{}", album),
    }
}

#[test]
fn listing_resolves_performer_and_album_names() {
    let mut catalog = Catalog::new();
    catalog.synchronize(&vec![record("X", "Song1", "Y", 2000), record("Z", "Song2", "W", 2001)]);
    let listing = catalog.get_songs_from_database();
    assert_eq!(listing.len(), 2);
    assert_eq!(listing[0].title, "Song1");
    assert_eq!(listing[0].artist, "X");
    assert_eq!(listing[0].album, "Y");
    assert_eq!(listing[1].title, "Song2");
    assert_eq!(listing[1].artist, "Z");
    assert_eq!(listing[1].album, "W");
}

#[test]
fn lookup_by_title_round_trips_the_record() {
    let mut catalog = Catalog::new();
    catalog.synchronize(&vec![record("X", "Song1", "Y", 2000), record("X", "Song2", "Y", 2000)]);
    let details = catalog.get_song_details(&"Song2".to_string()).unwrap();
    assert_eq!(details.title, "Song2");
    assert_eq!(details.artist, "X");
    assert_eq!(details.album, "Y");
    assert_eq!(details.year, 2000);
    assert_eq!(details.track_number, 1);
    assert_eq!(details.genre, "Rock");
    assert_eq!(details.path, "/m/Y/Song2.mp3");
}

#[test]
fn lookup_of_missing_title_is_not_found() {
    let mut catalog = Catalog::new();
    catalog.synchronize(&vec![record("X", "Song1", "Y", 2000)]);
    match catalog.get_song_details(&"Nope".to_string()) {
        Ok(_) => panic!("expected a not-found error"),
        Err(err) => assert_eq!(err, QueryError::NotFound),
    }
}

#[test]
fn missing_parent_links_fall_back_to_unknown() {
    let mut catalog = Catalog::new();
    // a song whose foreign keys reference no rows at all
    catalog.songs.push(Song {
        id: 1,
        performer_id: 42,
        album_id: 43,
        path: "/p".to_string(),
        title: "Orphan".to_string(),
        track: 0,
        year: 2000,
        genre: "None".to_string(),
    });
    let listing = catalog.get_songs_from_database();
    assert_eq!(listing.len(), 1);
    assert_eq!(listing[0].artist, "Unknown");
    assert_eq!(listing[0].album, "Unknown");
}
