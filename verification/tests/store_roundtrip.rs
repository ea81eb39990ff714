use music_manager::catalog::Catalog;
use music_manager::song_settings::MetadataRecord;
use music_manager::store::{
    create_database_connection, create_all_tables, create_tables_if_not_exist, insert_types,
    load_catalog, save_catalog, synchronize_database, get_songs_from_database,
};

fn record(artist: &str, title: &str, album: &str, year: i32) -> MetadataRecord {
    MetadataRecord {
        title: title.to_string(),
        artist: artist.to_string(),
        album: album.to_string(),
        track: 1,
        year,
        genre: "Rock".to_string(),
        path: format!("/m/{}/{}.mp3", album, title),
        album_path: format!("/m/{}", album),
    }
}

#[test]
fn schema_creation_is_idempotent() {
    let conn = create_database_connection(":memory:").unwrap();
    assert!(create_all_tables(&conn));
    assert!(create_tables_if_not_exist(&conn));
    assert!(create_all_tables(&conn));
}

#[test]
fn types_are_seeded_once() {
    let conn = create_database_connection(":memory:").unwrap();
    assert!(create_all_tables(&conn));
    assert!(insert_types(&conn));
    // seeding again violates the primary key: reported, not fatal
    assert!(!insert_types(&conn));
}

#[test]
fn saved_catalog_loads_back_identically() {
    let conn = create_database_connection(":memory:").unwrap();
    assert!(create_all_tables(&conn));

    let mut catalog = Catalog::new();
    catalog.synchronize(&vec![record("X", "Song1", "Y", 2000), record("Z", "Song2", "W", 2001)]);
    assert!(save_catalog(&conn, &catalog));

    let loaded = load_catalog(&conn).unwrap();
    assert_eq!(loaded.performers.len(), catalog.performers.len());
    assert_eq!(loaded.albums.len(), catalog.albums.len());
    assert_eq!(loaded.songs.len(), catalog.songs.len());
    for (a, b) in loaded.performers.iter().zip(catalog.performers.iter()) {
        assert_eq!((a.id, a.name.clone()), (b.id, b.name.clone()));
    }
    for (a, b) in loaded.albums.iter().zip(catalog.albums.iter()) {
        assert_eq!(
            (a.id, a.name.clone(), a.year, a.path.clone()),
            (b.id, b.name.clone(), b.year, b.path.clone())
        );
    }
    for (a, b) in loaded.songs.iter().zip(catalog.songs.iter()) {
        assert_eq!(a.id, b.id);
        assert_eq!(a.performer_id, b.performer_id);
        assert_eq!(a.album_id, b.album_id);
        assert_eq!(a.title, b.title);
        assert_eq!(a.track, b.track);
        assert_eq!(a.year, b.year);
        assert_eq!(a.genre, b.genre);
        assert_eq!(a.path, b.path);
    }
}

#[test]
fn synchronize_database_updates_the_store() {
    let conn = create_database_connection(":memory:").unwrap();
    assert!(synchronize_database(
        &conn,
        &vec![record("X", "Song1", "Y", 2000), record("X", "Song2", "Y", 2000)]
    ));
    let listing = get_songs_from_database(&conn).unwrap();
    assert_eq!(listing.len(), 2);
    assert_eq!(listing[0].artist, "X");

    // the second file vanished: its row is removed by the next pass
    assert!(synchronize_database(&conn, &vec![record("X", "Song1", "Y", 2000)]));
    let listing = get_songs_from_database(&conn).unwrap();
    assert_eq!(listing.len(), 1);
    assert_eq!(listing[0].title, "Song1");
}

#[test]
fn fresh_store_loads_as_empty_catalog() {
    let conn = create_database_connection(":memory:").unwrap();
    assert!(create_all_tables(&conn));
    let loaded = load_catalog(&conn).unwrap();
    assert_eq!(loaded.performers.len(), 0);
    assert_eq!(loaded.albums.len(), 0);
    assert_eq!(loaded.songs.len(), 0);
}

#[test]
fn resync_database_is_idempotent() {
    let conn = create_database_connection(":memory:").unwrap();
    let records = vec![record("X", "Song1", "Y", 2000), record("Z", "Song2", "W", 2001)];
    assert!(synchronize_database(&conn, &records));
    let first = load_catalog(&conn).unwrap();

    assert!(synchronize_database(&conn, &records));
    let second = load_catalog(&conn).unwrap();

    assert_eq!(first.performers.len(), second.performers.len());
    assert_eq!(first.albums.len(), second.albums.len());
    assert_eq!(first.songs.len(), second.songs.len());
    for (a, b) in first.performers.iter().zip(second.performers.iter()) {
        assert_eq!((a.id, a.name.clone()), (b.id, b.name.clone()));
    }
    for (a, b) in first.albums.iter().zip(second.albums.iter()) {
        assert_eq!(
            (a.id, a.name.clone(), a.year, a.path.clone()),
            (b.id, b.name.clone(), b.year, b.path.clone())
        );
    }
    for (a, b) in first.songs.iter().zip(second.songs.iter()) {
        assert_eq!((a.id, a.title.clone(), a.track), (b.id, b.title.clone(), b.track));
    }
}

#[test]
fn moved_album_is_corrected_in_the_store() {
    let conn = create_database_connection(":memory:").unwrap();
    let mut moved = record("X", "Song1", "Y", 2000);
    assert!(synchronize_database(&conn, &vec![record("X", "Song1", "Y", 2000)]));
    let before = load_catalog(&conn).unwrap();

    moved.path = "/elsewhere/Y/Song1.mp3".to_string();
    moved.album_path = "/elsewhere/Y".to_string();
    assert!(synchronize_database(&conn, &vec![moved]));
    let after = load_catalog(&conn).unwrap();

    assert_eq!(after.albums.len(), 1);
    assert_eq!(after.albums[0].id, before.albums[0].id);
    assert_eq!(after.albums[0].path, "/elsewhere/Y");
    assert_eq!(after.songs.len(), 1);
    assert_eq!(after.songs[0].id, before.songs[0].id);
    assert_eq!(after.songs[0].path, "/elsewhere/Y/Song1.mp3");
}
