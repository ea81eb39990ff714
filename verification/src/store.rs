//! Persistence of the catalog in an embedded SQLite database.
//!
//! The table names and column names here are the on-disk contract. All SQL
//! is executed through the trusted wrappers at the top of the module; what
//! a statement returns depends on the database file on disk, so the
//! wrappers promise nothing, and everything that can be checked — the
//! relational invariants of the loaded rows — is checked by the verified
//! [`Catalog::from_rows`] validator after the rows come back.

use vstd::prelude::*;

use crate::catalog::{Album, Catalog, Performer, Song};
use crate::query::{spec_song_list, SongDetails};
use crate::song_settings::MetadataRecord;

verus! {

#[verifier::external_type_specification]
#[verifier::external_body]
pub struct ExConnection(rusqlite::Connection);

/// Relies on rusqlite::Connection::open: opens (creating if absent) the
/// SQLite database at the given path; `None` on failure.
#[verifier::external_body]
pub fn create_database_connection(path: &str) -> (r: Option<rusqlite::Connection>) {
    rusqlite::Connection::open(path).ok()
}

/// Relies on rusqlite::Connection::execute: runs one parameterless SQL
/// statement; whether it succeeds depends on the database on disk.
#[verifier::external_body]
fn exec_sql(conn: &rusqlite::Connection, sql: &str) -> (ok: bool) {
    conn.execute(sql, ()).is_ok()
}

/// Relies on rusqlite::Connection::execute: runs one SQL statement with an
/// integer and a text parameter bound to `?1` and `?2`.
#[verifier::external_body]
fn exec_sql_id_text(conn: &rusqlite::Connection, sql: &str, id: i64, text: &str) -> (ok: bool) {
    conn.execute(sql, (id, text)).is_ok()
}

/// Relies on rusqlite::Connection::execute: runs one SQL statement binding
/// an album row's fields to `?1`..`?4`.
#[verifier::external_body]
fn exec_sql_album_row(
    conn: &rusqlite::Connection,
    sql: &str,
    id: i64,
    name: &str,
    year: i32,
    path: &str,
) -> (ok: bool) {
    conn.execute(sql, (id, name, year, path)).is_ok()
}

/// Relies on rusqlite::Connection::execute: runs one SQL statement binding
/// a song row's fields to `?1`..`?8`.
#[verifier::external_body]
fn exec_sql_song_row(
    conn: &rusqlite::Connection,
    sql: &str,
    id: i64,
    performer_id: i64,
    album_id: i64,
    path: &str,
    title: &str,
    track: i32,
    year: i32,
    genre: &str,
) -> (ok: bool) {
    conn.execute(sql, (id, performer_id, album_id, path, title, track, year, genre)).is_ok()
}

/// Relies on rusqlite's Connection::prepare and Statement::query_map: runs a
/// two-column query yielding `(id, name)` performer rows; `None` on failure.
#[verifier::external_body]
fn query_performer_rows(conn: &rusqlite::Connection, sql: &str) -> (r: Option<Vec<Performer>>) {
    let mut stmt = conn.prepare(sql).ok()?;
    let rows = stmt.query_map((), |row| {
        Ok(Performer { id: row.get(0)?, name: row.get(1)? })
    }).ok()?;
    rows.collect::<Result<Vec<Performer>, _>>().ok()
}

/// Relies on rusqlite's Connection::prepare and Statement::query_map: runs a
/// four-column query yielding `(id, name, year, path)` album rows.
#[verifier::external_body]
fn query_album_rows(conn: &rusqlite::Connection, sql: &str) -> (r: Option<Vec<Album>>) {
    let mut stmt = conn.prepare(sql).ok()?;
    let rows = stmt.query_map((), |row| {
        Ok(Album { id: row.get(0)?, name: row.get(1)?, year: row.get(2)?, path: row.get(3)? })
    }).ok()?;
    rows.collect::<Result<Vec<Album>, _>>().ok()
}

/// Relies on rusqlite's Connection::prepare and Statement::query_map: runs
/// an eight-column query yielding full song rows.
#[verifier::external_body]
fn query_song_rows(conn: &rusqlite::Connection, sql: &str) -> (r: Option<Vec<Song>>) {
    let mut stmt = conn.prepare(sql).ok()?;
    let rows = stmt.query_map((), |row| {
        Ok(Song {
            id: row.get(0)?,
            performer_id: row.get(1)?,
            album_id: row.get(2)?,
            path: row.get(3)?,
            title: row.get(4)?,
            track: row.get(5)?,
            year: row.get(6)?,
            genre: row.get(7)?,
        })
    }).ok()?;
    rows.collect::<Result<Vec<Song>, _>>().ok()
}

/// Idempotent creation of every entity table; safe to call on every
/// startup. Returns whether every statement succeeded.
pub fn create_all_tables(conn: &rusqlite::Connection) -> (ok: bool) {
    let mut ok = exec_sql(
        conn,
        "CREATE TABLE IF NOT EXISTS types (
            id_type       INTEGER PRIMARY KEY,
            description   TEXT
        )",
    );
    ok = exec_sql(
        conn,
        "CREATE TABLE IF NOT EXISTS performers (
            id_performer       INTEGER PRIMARY KEY,
            id_type            INTEGER,
            name               TEXT,
            FOREIGN KEY   (id_type) REFERENCES types(id_type)
        )",
    ) && ok;
    ok = exec_sql(
        conn,
        "CREATE TABLE IF NOT EXISTS persons (
            id_person       INTEGER PRIMARY KEY,
            stage_name      TEXT,
            real_name       TEXT,
            birth_date      TEXT,
            death_date      TEXT
        )",
    ) && ok;
    ok = exec_sql(
        conn,
        "CREATE TABLE IF NOT EXISTS groups (
            id_person       INTEGER PRIMARY KEY,
            name            TEXT,
            start_date      TEXT,
            end_date        TEXT
        )",
    ) && ok;
    ok = exec_sql(
        conn,
        "CREATE TABLE IF NOT EXISTS in_group (
            id_person       INTEGER,
            id_group        INTEGER,
            PRIMARY KEY (id_person, id_group),
            FOREIGN KEY (id_person) REFERENCES persons(id_person),
            FOREIGN KEY (id_group) REFERENCES groups(id_group)
        )",
    ) && ok;
    ok = exec_sql(
        conn,
        "CREATE TABLE IF NOT EXISTS albums (
            id_album        INTEGER PRIMARY KEY,
            path            TEXT,
            name            TEXT,
            year            INTEGER
        )",
    ) && ok;
    ok = exec_sql(
        conn,
        "CREATE TABLE IF NOT EXISTS rolas (
            id_rola         INTEGER PRIMARY KEY,
            id_performer    INTEGER,
            id_album        INTEGER,
            path            TEXT,
            title           TEXT,
            track           INTEGER,
            year            INTEGER,
            genre           TEXT,
            FOREIGN KEY (id_performer) REFERENCES performers(id_performer),
            FOREIGN KEY (id_album) REFERENCES albums(id_album)
        )",
    ) && ok;
    ok
}

/// Ensure the required tables exist, creating any that are missing.
pub fn create_tables_if_not_exist(conn: &rusqlite::Connection) -> (ok: bool) {
    create_all_tables(conn)
}

/// Seed the fixed performer-type lookup (Person / Group / Unknown); meant
/// to run once against a fresh store.
pub fn insert_types(conn: &rusqlite::Connection) -> (ok: bool) {
    let mut ok = exec_sql_id_text(conn, "INSERT INTO types VALUES(?1,?2)", 0, "Person");
    ok = exec_sql_id_text(conn, "INSERT INTO types VALUES(?1,?2)", 1, "Group") && ok;
    ok = exec_sql_id_text(conn, "INSERT INTO types VALUES(?1,?2)", 2, "Unknown") && ok;
    ok
}

/// Replace the stored entity rows with the catalog's rows. Returns whether
/// every statement succeeded.
pub fn save_catalog(conn: &rusqlite::Connection, catalog: &Catalog) -> (ok: bool) {
    let mut ok = exec_sql(conn, "DELETE FROM rolas");
    ok = exec_sql(conn, "DELETE FROM performers") && ok;
    ok = exec_sql(conn, "DELETE FROM albums") && ok;
    let mut i: usize = 0;
    while i < catalog.performers.len()
        decreases catalog.performers.len() - i,
    {
        let p = &catalog.performers[i];
        ok = exec_sql_id_text(
            conn,
            "INSERT INTO performers (id_performer, name) VALUES (?1, ?2)",
            p.id,
            p.name.as_str(),
        ) && ok;
        i += 1;
    }
    let mut i: usize = 0;
    while i < catalog.albums.len()
        decreases catalog.albums.len() - i,
    {
        let a = &catalog.albums[i];
        ok = exec_sql_album_row(
            conn,
            "INSERT INTO albums (id_album, name, year, path) VALUES (?1, ?2, ?3, ?4)",
            a.id,
            a.name.as_str(),
            a.year,
            a.path.as_str(),
        ) && ok;
        i += 1;
    }
    let mut i: usize = 0;
    while i < catalog.songs.len()
        decreases catalog.songs.len() - i,
    {
        let s = &catalog.songs[i];
        ok = exec_sql_song_row(
            conn,
            "INSERT INTO rolas (id_rola, id_performer, id_album, path, title, track, year, genre)
             VALUES (?1, ?2, ?3, ?4, ?5, ?6, ?7, ?8)",
            s.id,
            s.performer_id,
            s.album_id,
            s.path.as_str(),
            s.title.as_str(),
            s.track,
            s.year,
            s.genre.as_str(),
        ) && ok;
        i += 1;
    }
    ok
}

/// Load the stored rows and assemble a catalog, validating the relational
/// invariants; `None` when a query fails or the rows violate an invariant.
pub fn load_catalog(conn: &rusqlite::Connection) -> (r: Option<Catalog>)
    ensures
        match r {
            Some(c) => c@.wf(),
            None => true,
        },
{
    let performers = match query_performer_rows(
        conn,
        "SELECT id_performer, name FROM performers",
    ) {
        Some(rows) => rows,
        None => {
            return None;
        },
    };
    let albums = match query_album_rows(conn, "SELECT id_album, name, year, path FROM albums") {
        Some(rows) => rows,
        None => {
            return None;
        },
    };
    let songs = match query_song_rows(
        conn,
        "SELECT id_rola, id_performer, id_album, path, title, track, year, genre FROM rolas",
    ) {
        Some(rows) => rows,
        None => {
            return None;
        },
    };
    Catalog::from_rows(performers, albums, songs)
}

/// Load the catalog and list every song with performer and album names
/// resolved; `None` when the catalog cannot be loaded. The listing itself
/// is the verified join of [`Catalog::get_songs_from_database`].
pub fn get_songs_from_database(conn: &rusqlite::Connection) -> (r: Option<Vec<SongDetails>>)
    ensures
        match r {
            Some(v) => exists|c: crate::model::CatalogV|
                c.wf() && v@.map_values(|d: SongDetails| d@) == spec_song_list(c),
            None => true,
        },
{
    match load_catalog(conn) {
        Some(catalog) => {
            let v = catalog.get_songs_from_database();
            proof {
                assert(catalog@.wf() && v@.map_values(|d: SongDetails| d@) == spec_song_list(
                    catalog@,
                ));
            }
            Some(v)
        },
        None => None,
    }
}

/// One full synchronization against the store: ensure the schema, load and
/// validate the stored rows, reconcile the crawl sequence in memory with
/// the verified engine, and write the result back. Returns `false` — and
/// writes nothing — when the store cannot be read, its rows violate the
/// relational invariants, or the crawl would overflow the id space.
pub fn synchronize_database(conn: &rusqlite::Connection, records: &Vec<MetadataRecord>) -> (ok:
    bool) {
    if !create_all_tables(conn) {
        return false;
    }
    let mut catalog = match load_catalog(conn) {
        Some(c) => c,
        None => {
            return false;
        },
    };
    let len = records.len();
    if (len as u64) >= (i64::MAX as u64) {
        return false;
    }
    let n = len as i64;
    if catalog.next_performer_id > i64::MAX - n || catalog.next_album_id > i64::MAX - n
        || catalog.next_song_id > i64::MAX - n {
        return false;
    }
    catalog.synchronize(records);
    save_catalog(conn, &catalog)
}

} // verus!
