use music_manager::catalog::Catalog;
use music_manager::song_settings::MetadataRecord;

fn record(
    artist: &str,
    title: &str,
    album: &str,
    year: i32,
    track: i32,
    genre: &str,
    path: &str,
    album_path: &str,
) -> MetadataRecord {
    MetadataRecord {
        title: title.to_string(),
        artist: artist.to_string(),
        album: album.to_string(),
        track,
        year,
        genre: genre.to_string(),
        path: path.to_string(),
        album_path: album_path.to_string(),
    }
}

#[test]
fn two_songs_share_performer_and_album() {
    let a = record("X", "Song1", "Y", 2000, 1, "Rock", "/m/Y/a.mp3", "/m/Y");
    let b = record("X", "Song2", "Y", 2000, 2, "Rock", "/m/Y/b.mp3", "/m/Y");
    let records = vec![a, b];
    let mut catalog = Catalog::new();
    catalog.synchronize(&records);

    assert_eq!(catalog.performers.len(), 1);
    assert_eq!(catalog.performers[0].name, "X");
    assert_eq!(catalog.albums.len(), 1);
    assert_eq!(catalog.albums[0].name, "Y");
    assert_eq!(catalog.albums[0].year, 2000);
    assert_eq!(catalog.songs.len(), 2);
    assert_eq!(catalog.songs[0].performer_id, catalog.songs[1].performer_id);
    assert_eq!(catalog.songs[0].album_id, catalog.songs[1].album_id);
    assert_eq!(catalog.songs[0].title, "Song1");
    assert_eq!(catalog.songs[1].title, "Song2");
}

#[test]
fn resync_after_file_removed_drops_only_that_song() {
    let a = record("X", "Song1", "Y", 2000, 1, "Rock", "/m/Y/a.mp3", "/m/Y");
    let b = record("X", "Song2", "Y", 2000, 2, "Rock", "/m/Y/b.mp3", "/m/Y");
    let mut catalog = Catalog::new();
    catalog.synchronize(&vec![a.clone(), b]);

    let song1_before = (
        catalog.songs[0].id,
        catalog.songs[0].title.clone(),
        catalog.songs[0].path.clone(),
    );
    let performer_before = (catalog.performers[0].id, catalog.performers[0].name.clone());
    let album_before = (catalog.albums[0].id, catalog.albums[0].name.clone(), catalog.albums[0].year);

    // the second file disappeared from disk; only the first is crawled now
    catalog.synchronize(&vec![a]);

    assert_eq!(catalog.songs.len(), 1);
    assert_eq!(catalog.songs[0].title, "Song1");
    assert_eq!(
        (catalog.songs[0].id, catalog.songs[0].title.clone(), catalog.songs[0].path.clone()),
        song1_before
    );
    // orphaned parents stay behind
    assert_eq!(catalog.performers.len(), 1);
    assert_eq!((catalog.performers[0].id, catalog.performers[0].name.clone()), performer_before);
    assert_eq!(catalog.albums.len(), 1);
    assert_eq!(
        (catalog.albums[0].id, catalog.albums[0].name.clone(), catalog.albums[0].year),
        album_before
    );
}

#[test]
fn resync_unchanged_directory_is_idempotent() {
    let a = record("P", "S1", "A", 1999, 1, "Pop", "/d/A/s1.mp3", "/d/A");
    let b = record("Q", "S2", "B", 2001, 2, "Jazz", "/d/B/s2.mp3", "/d/B");
    let records = vec![a, b];
    let mut catalog = Catalog::new();
    catalog.synchronize(&records);

    let performers: Vec<(i64, String)> =
        catalog.performers.iter().map(|p| (p.id, p.name.clone())).collect();
    let songs: Vec<(i64, String)> = catalog.songs.iter().map(|s| (s.id, s.title.clone())).collect();

    catalog.synchronize(&records);

    let performers_after: Vec<(i64, String)> =
        catalog.performers.iter().map(|p| (p.id, p.name.clone())).collect();
    let songs_after: Vec<(i64, String)> =
        catalog.songs.iter().map(|s| (s.id, s.title.clone())).collect();
    assert_eq!(performers, performers_after);
    assert_eq!(songs, songs_after);
}

#[test]
fn changed_attributes_update_in_place_without_duplicate() {
    let before = record("X", "Song1", "Y", 2000, 1, "Rock", "/m/Y/a.mp3", "/m/Y");
    let mut catalog = Catalog::new();
    catalog.synchronize(&vec![before]);
    assert_eq!(catalog.songs.len(), 1);
    let id_before = catalog.songs[0].id;

    // same (performer, album, title) identity, new non-key attributes
    let after = record("X", "Song1", "Y", 2000, 7, "Metal", "/moved/Y/a.mp3", "/m/Y");
    catalog.synchronize(&vec![after]);

    assert_eq!(catalog.songs.len(), 1);
    assert_eq!(catalog.songs[0].id, id_before);
    assert_eq!(catalog.songs[0].track, 7);
    assert_eq!(catalog.songs[0].genre, "Metal");
    assert_eq!(catalog.songs[0].path, "/moved/Y/a.mp3");
}

#[test]
fn album_moved_to_new_path_is_corrected_not_duplicated() {
    let a = record("X", "Song1", "Y", 2000, 1, "Rock", "/old/Y/a.mp3", "/old/Y");
    let mut catalog = Catalog::new();
    catalog.synchronize(&vec![a]);
    assert_eq!(catalog.albums.len(), 1);
    let album_id = catalog.albums[0].id;

    let moved = record("X", "Song1", "Y", 2000, 1, "Rock", "/new/Y/a.mp3", "/new/Y");
    catalog.synchronize(&vec![moved]);

    assert_eq!(catalog.albums.len(), 1);
    assert_eq!(catalog.albums[0].id, album_id);
    assert_eq!(catalog.albums[0].path, "/new/Y");
}

#[test]
fn two_spellings_are_two_performers() {
    let a = record("AC/DC", "T1", "A", 1980, 1, "Rock", "/m/A/t1.mp3", "/m/A");
    let b = record("ac/dc", "T2", "A", 1980, 2, "Rock", "/m/A/t2.mp3", "/m/A");
    let mut catalog = Catalog::new();
    catalog.synchronize(&vec![a, b]);
    assert_eq!(catalog.performers.len(), 2);
}

#[test]
fn invalid_file_contributes_no_row() {
    // a corrupt file never produces a record; only the two readable files do
    let a = record("X", "Good1", "Y", 2000, 1, "Rock", "/m/Y/a.mp3", "/m/Y");
    let b = record("X", "Good2", "Y", 2000, 2, "Rock", "/m/Y/b.mp3", "/m/Y");
    let mut catalog = Catalog::new();
    catalog.synchronize(&vec![a, b]);
    assert_eq!(catalog.songs.len(), 2);
    assert!(catalog.get_song_details(&"Good1".to_string()).is_ok());
    assert!(catalog.get_song_details(&"Missing".to_string()).is_err());
}

#[test]
fn empty_crawl_clears_songs_but_keeps_parents() {
    let a = record("X", "Song1", "Y", 2000, 1, "Rock", "/m/Y/a.mp3", "/m/Y");
    let mut catalog = Catalog::new();
    catalog.synchronize(&vec![a]);
    assert_eq!(catalog.songs.len(), 1);

    catalog.synchronize(&Vec::new());
    assert_eq!(catalog.songs.len(), 0);
    assert_eq!(catalog.performers.len(), 1);
    assert_eq!(catalog.albums.len(), 1);
}
