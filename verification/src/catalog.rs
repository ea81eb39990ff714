//! The executable catalog: the three entity tables held in memory, and the
//! reconciliation engine that upserts performers, albums and songs from a
//! crawl sequence and removes songs whose titles have disappeared.
//!
//! Every operation is specified against the spec functions of [`crate::model`].

use vstd::prelude::*;

use crate::model::{
    album_id_idx, album_idx, empty_catalog, kept_songs, lemma_album_id_idx,
    lemma_album_id_idx_some, lemma_album_idx, lemma_apply_all_props, lemma_cleanup_wf,
    lemma_perf_id_idx, lemma_perf_id_idx_some, lemma_perf_idx, lemma_resolve_album_props,
    lemma_resolve_performer_props, lemma_song_idx, lemma_upsert_song_props, perf_id_idx,
    perf_idx, song_idx, spec_apply, spec_apply_all, spec_cleanup, spec_resolve_album,
    spec_resolve_performer, spec_sync, spec_upsert_song, title_in, AlbumV, CatalogV, PerformerV,
    RecordV, SongV,
};
use crate::song_settings::MetadataRecord;

verus! {

/// One performer row. Identity key: `name`.
pub struct Performer {
    pub id: i64,
    pub name: String,
}

impl View for Performer {
    type V = PerformerV;

    open spec fn view(&self) -> PerformerV {
        PerformerV { id: self.id as int, name: self.name@ }
    }
}

/// One album row. Identity key: `(name, year)`.
pub struct Album {
    pub id: i64,
    pub name: String,
    pub year: i32,
    pub path: String,
}

impl View for Album {
    type V = AlbumV;

    open spec fn view(&self) -> AlbumV {
        AlbumV { id: self.id as int, name: self.name@, year: self.year as int, path: self.path@ }
    }
}

/// One song ("rola") row. Identity key: `(performer_id, album_id, title)`.
pub struct Song {
    pub id: i64,
    pub performer_id: i64,
    pub album_id: i64,
    pub path: String,
    pub title: String,
    pub track: i32,
    pub year: i32,
    pub genre: String,
}

impl View for Song {
    type V = SongV;

    open spec fn view(&self) -> SongV {
        SongV {
            id: self.id as int,
            performer_id: self.performer_id as int,
            album_id: self.album_id as int,
            path: self.path@,
            title: self.title@,
            track: self.track as int,
            year: self.year as int,
            genre: self.genre@,
        }
    }
}

/// The in-memory catalog: performer, album and song tables plus the next
/// store-assigned id of each table.
pub struct Catalog {
    pub performers: Vec<Performer>,
    pub albums: Vec<Album>,
    pub songs: Vec<Song>,
    pub next_performer_id: i64,
    pub next_album_id: i64,
    pub next_song_id: i64,
}

impl View for Catalog {
    type V = CatalogV;

    open spec fn view(&self) -> CatalogV {
        CatalogV {
            performers: self.performers@.map_values(|p: Performer| p@),
            albums: self.albums@.map_values(|a: Album| a@),
            songs: self.songs@.map_values(|s: Song| s@),
            next_performer_id: self.next_performer_id as int,
            next_album_id: self.next_album_id as int,
            next_song_id: self.next_song_id as int,
        }
    }
}

impl Catalog {
    /// A fresh, empty catalog, as a newly created store would hold.
    pub fn new() -> (c: Catalog)
        ensures
            c@ == empty_catalog(),
            c@.wf(),
    {
        let c = Catalog {
            performers: Vec::new(),
            albums: Vec::new(),
            songs: Vec::new(),
            next_performer_id: 1,
            next_album_id: 1,
            next_song_id: 1,
        };
        proof {
            assert(c@ =~~= empty_catalog());
        }
        c
    }

    /// Index of the performer row with this exact name, if any.
    fn find_performer(&self, name: &String) -> (r: Option<usize>)
        ensures
            match r {
                Some(i) => perf_idx(self@.performers, name@) == i as int && i
                    < self.performers.len(),
                None => perf_idx(self@.performers, name@) == -1,
            },
    {
        let n = self.performers.len();
        let mut i: usize = 0;
        while i < n
            invariant
                0 <= i <= n,
                n == self.performers.len(),
                forall|k: int| 0 <= k < i ==> (#[trigger] self@.performers[k]).name != name@,
            decreases n - i,
        {
            if self.performers[i].name == *name {
                proof {
                    lemma_perf_idx(self@.performers, name@);
                    let f = perf_idx(self@.performers, name@);
                    assert(self@.performers[i as int].name == name@);
                    if f < i {
                        assert(self@.performers[f].name == name@);
                    }
                }
                return Some(i);
            }
            i += 1;
        }
        proof {
            lemma_perf_idx(self@.performers, name@);
            let f = perf_idx(self@.performers, name@);
            if f >= 0 {
                assert(self@.performers[f].name != name@);
            }
        }
        None
    }

    /// Index of the album row keyed by this exact `(name, year)`, if any.
    fn find_album(&self, name: &String, year: i32) -> (r: Option<usize>)
        ensures
            match r {
                Some(i) => album_idx(self@.albums, name@, year as int) == i as int && i
                    < self.albums.len(),
                None => album_idx(self@.albums, name@, year as int) == -1,
            },
    {
        let n = self.albums.len();
        let mut i: usize = 0;
        while i < n
            invariant
                0 <= i <= n,
                n == self.albums.len(),
                forall|k: int|
                    0 <= k < i ==> !((#[trigger] self@.albums[k]).name == name@
                        && self@.albums[k].year == year as int),
            decreases n - i,
        {
            if self.albums[i].name == *name && self.albums[i].year == year {
                proof {
                    lemma_album_idx(self@.albums, name@, year as int);
                    let f = album_idx(self@.albums, name@, year as int);
                    assert(self@.albums[i as int].name == name@);
                    if f < i {
                        assert(!(self@.albums[f].name == name@ && self@.albums[f].year
                            == year as int));
                    }
                }
                return Some(i);
            }
            i += 1;
        }
        proof {
            lemma_album_idx(self@.albums, name@, year as int);
            let f = album_idx(self@.albums, name@, year as int);
            if f >= 0 {
                assert(!(self@.albums[f].name == name@ && self@.albums[f].year == year as int));
            }
        }
        None
    }

    /// Index of the song row keyed by this exact identity, if any.
    fn find_song(&self, performer_id: i64, album_id: i64, title: &String) -> (r: Option<usize>)
        ensures
            match r {
                Some(i) => song_idx(
                    self@.songs,
                    performer_id as int,
                    album_id as int,
                    title@,
                ) == i as int && i < self.songs.len(),
                None => song_idx(self@.songs, performer_id as int, album_id as int, title@)
                    == -1,
            },
    {
        let n = self.songs.len();
        let mut i: usize = 0;
        while i < n
            invariant
                0 <= i <= n,
                n == self.songs.len(),
                forall|k: int|
                    0 <= k < i ==> !((#[trigger] self@.songs[k]).performer_id
                        == performer_id as int && self@.songs[k].album_id == album_id as int
                        && self@.songs[k].title == title@),
            decreases n - i,
        {
            if self.songs[i].performer_id == performer_id && self.songs[i].album_id == album_id
                && self.songs[i].title == *title {
                proof {
                    lemma_song_idx(self@.songs, performer_id as int, album_id as int, title@);
                    let f = song_idx(self@.songs, performer_id as int, album_id as int, title@);
                    assert(self@.songs[i as int].title == title@);
                    if f < i {
                        assert(!(self@.songs[f].performer_id == performer_id as int
                            && self@.songs[f].album_id == album_id as int && self@.songs[f].title
                            == title@));
                    }
                }
                return Some(i);
            }
            i += 1;
        }
        proof {
            lemma_song_idx(self@.songs, performer_id as int, album_id as int, title@);
            let f = song_idx(self@.songs, performer_id as int, album_id as int, title@);
            if f >= 0 {
                assert(!(self@.songs[f].performer_id == performer_id as int
                    && self@.songs[f].album_id == album_id as int && self@.songs[f].title
                    == title@));
            }
        }
        None
    }

    /// Resolve a performer by name: return the existing row's id, or insert
    /// a fresh row and return its id. (The row is never updated: the lookup
    /// key is the name itself, so an update could never change it.)
    pub fn resolve_performer(&mut self, name: &String) -> (id: i64)
        requires
            old(self)@.wf(),
            old(self).next_performer_id < i64::MAX,
        ensures
            final(self)@ == spec_resolve_performer(old(self)@, name@).0,
            id as int == spec_resolve_performer(old(self)@, name@).1,
            final(self)@.wf(),
    {
        proof {
            lemma_resolve_performer_props(self@, name@);
        }
        match self.find_performer(name) {
            Some(i) => self.performers[i].id,
            None => {
                let id = self.next_performer_id;
                self.performers.push(Performer { id, name: name.clone() });
                self.next_performer_id = id + 1;
                proof {
                    assert(self@.performers =~~= spec_resolve_performer(
                        old(self)@,
                        name@,
                    ).0.performers);
                    assert(self@ =~~= spec_resolve_performer(old(self)@, name@).0);
                }
                id
            },
        }
    }

    /// Resolve an album by its `(name, year)` identity: return the existing
    /// row's id — correcting its stored path in place when the files moved —
    /// or insert a fresh row and return its id.
    pub fn resolve_album(&mut self, name: &String, year: i32, path: &String) -> (id: i64)
        requires
            old(self)@.wf(),
            old(self).next_album_id < i64::MAX,
        ensures
            final(self)@ == spec_resolve_album(old(self)@, name@, year as int, path@).0,
            id as int == spec_resolve_album(old(self)@, name@, year as int, path@).1,
            final(self)@.wf(),
    {
        proof {
            lemma_resolve_album_props(self@, name@, year as int, path@);
        }
        match self.find_album(name, year) {
            Some(i) => {
                let id = self.albums[i].id;
                if self.albums[i].path != *path {
                    let a = &self.albums[i];
                    let updated = Album {
                        id: a.id,
                        name: a.name.clone(),
                        year: a.year,
                        path: path.clone(),
                    };
                    self.albums.set(i, updated);
                    proof {
                        assert(self@.albums =~~= spec_resolve_album(
                            old(self)@,
                            name@,
                            year as int,
                            path@,
                        ).0.albums);
                        assert(self@ =~~= spec_resolve_album(
                            old(self)@,
                            name@,
                            year as int,
                            path@,
                        ).0);
                    }
                }
                id
            },
            None => {
                let id = self.next_album_id;
                self.albums.push(
                    Album { id, name: name.clone(), year, path: path.clone() },
                );
                self.next_album_id = id + 1;
                proof {
                    assert(self@.albums =~~= spec_resolve_album(
                        old(self)@,
                        name@,
                        year as int,
                        path@,
                    ).0.albums);
                    assert(self@ =~~= spec_resolve_album(
                        old(self)@,
                        name@,
                        year as int,
                        path@,
                    ).0);
                }
                id
            },
        }
    }

    /// Upsert a song under its `(performer id, album id, title)` identity:
    /// insert a fresh row when absent, update the non-key attributes in
    /// place when any changed, and otherwise write nothing.
    pub fn upsert_song(&mut self, performer_id: i64, album_id: i64, record: &MetadataRecord)
        requires
            old(self)@.wf(),
            old(self).next_song_id < i64::MAX,
            perf_id_idx(old(self)@.performers, performer_id as int) >= 0,
            album_id_idx(old(self)@.albums, album_id as int) >= 0,
        ensures
            final(self)@ == spec_upsert_song(
                old(self)@,
                performer_id as int,
                album_id as int,
                record@,
            ),
            final(self)@.wf(),
    {
        proof {
            lemma_upsert_song_props(self@, performer_id as int, album_id as int, record@);
        }
        let ghost target = spec_upsert_song(
            self@,
            performer_id as int,
            album_id as int,
            record@,
        );
        match self.find_song(performer_id, album_id, &record.title) {
            Some(i) => {
                let s = &self.songs[i];
                if s.track != record.track || s.year != record.year || s.genre != record.genre
                    || s.path != record.path {
                    let updated = Song {
                        id: s.id,
                        performer_id: s.performer_id,
                        album_id: s.album_id,
                        path: record.path.clone(),
                        title: s.title.clone(),
                        track: record.track,
                        year: record.year,
                        genre: record.genre.clone(),
                    };
                    self.songs.set(i, updated);
                    proof {
                        assert(self@.songs =~~= target.songs);
                        assert(self@ =~~= target);
                    }
                }
            },
            None => {
                let id = self.next_song_id;
                self.songs.push(
                    Song {
                        id,
                        performer_id,
                        album_id,
                        path: record.path.clone(),
                        title: record.title.clone(),
                        track: record.track,
                        year: record.year,
                        genre: record.genre.clone(),
                    },
                );
                self.next_song_id = id + 1;
                proof {
                    assert(self@.songs =~~= target.songs);
                    assert(self@ =~~= target);
                }
            },
        }
    }

    /// Reconcile one record: resolve the performer and the album first, then
    /// upsert the song under their ids, so that the song's foreign keys
    /// always reference existing rows.
    pub fn apply_record(&mut self, record: &MetadataRecord)
        requires
            old(self)@.wf(),
            old(self).next_performer_id < i64::MAX,
            old(self).next_album_id < i64::MAX,
            old(self).next_song_id < i64::MAX,
        ensures
            final(self)@ == spec_apply(old(self)@, record@),
            final(self)@.wf(),
    {
        proof {
            lemma_resolve_performer_props(self@, record@.artist);
        }
        let pid = self.resolve_performer(&record.artist);
        proof {
            lemma_resolve_album_props(self@, record@.album, record@.year, record@.album_path);
        }
        let aid = self.resolve_album(&record.album, record.year, &record.album_path);
        self.upsert_song(pid, aid, record);
        proof {
            assert(final(self)@ == spec_apply(old(self)@, record@));
        }
    }

    /// Whether some record of the crawl carries this title.
    fn title_found(records: &Vec<MetadataRecord>, title: &String) -> (b: bool)
        ensures
            b == title_in(records_view(records@), title@),
    {
        let ghost rv = records_view(records@);
        let n = records.len();
        let mut i: usize = 0;
        while i < n
            invariant
                0 <= i <= n,
                n == records.len(),
                rv == records_view(records@),
                forall|k: int| 0 <= k < i ==> (#[trigger] rv[k]).title != title@,
            decreases n - i,
        {
            if records[i].title == *title {
                proof {
                    assert(rv[i as int].title == title@);
                }
                return true;
            }
            i += 1;
        }
        proof {
            if title_in(rv, title@) {
                let w = choose|w: int| 0 <= w < rv.len() && (#[trigger] rv[w]).title == title@;
                assert(rv[w].title != title@);
            }
        }
        false
    }

    /// The cleanup pass: build the set of titles found in the crawl and
    /// remove every song row whose title is absent from it. Performer and
    /// album rows are never deleted.
    pub fn cleanup(&mut self, records: &Vec<MetadataRecord>)
        requires
            old(self)@.wf(),
        ensures
            final(self)@ == spec_cleanup(old(self)@, records_view(records@)),
            final(self)@.wf(),
    {
        proof {
            lemma_cleanup_wf(self@, records_view(records@));
        }
        let ghost rv = records_view(records@);
        let ghost all = self@.songs;
        let mut kept: Vec<Song> = Vec::new();
        let n = self.songs.len();
        let mut i: usize = 0;
        while i < n
            invariant
                0 <= i <= n,
                n == self.songs.len(),
                all == self@.songs,
                rv == records_view(records@),
                kept@.map_values(|s: Song| s@) == kept_songs(all.take(i as int), rv),
            decreases n - i,
        {
            let ghost prefix = all.take(i as int);
            let ghost next_prefix = all.take(i as int + 1);
            proof {
                assert(next_prefix.drop_last() =~= prefix);
                assert(next_prefix.last() == all[i as int]);
            }
            let s = &self.songs[i];
            if Self::title_found(records, &s.title) {
                kept.push(s.duplicate());
                proof {
                    assert(kept@.map_values(|s: Song| s@) =~~= kept_songs(next_prefix, rv));
                }
            } else {
                proof {
                    assert(kept@.map_values(|s: Song| s@) =~~= kept_songs(next_prefix, rv));
                }
            }
            i += 1;
        }
        proof {
            assert(all.take(n as int) =~= all);
        }
        self.songs = kept;
        proof {
            assert(self@ =~~= spec_cleanup(old(self)@, rv));
        }
    }

    /// One full synchronization pass: reconcile every record of the crawl in
    /// order, then remove the songs whose titles the crawl no longer holds.
    pub fn synchronize(&mut self, records: &Vec<MetadataRecord>)
        requires
            old(self)@.wf(),
            old(self).next_performer_id + records@.len() <= i64::MAX,
            old(self).next_album_id + records@.len() <= i64::MAX,
            old(self).next_song_id + records@.len() <= i64::MAX,
        ensures
            final(self)@ == spec_sync(old(self)@, records_view(records@)),
            final(self)@.wf(),
    {
        let ghost rv = records_view(records@);
        let ghost c0 = self@;
        let n = records.len();
        let mut i: usize = 0;
        while i < n
            invariant
                0 <= i <= n,
                n == records.len(),
                rv == records_view(records@),
                c0 == old(self)@,
                c0.wf(),
                self@ == spec_apply_all(c0, rv.take(i as int)),
                self@.wf(),
                c0.next_performer_id + n <= i64::MAX,
                c0.next_album_id + n <= i64::MAX,
                c0.next_song_id + n <= i64::MAX,
            decreases n - i,
        {
            proof {
                lemma_apply_all_props(c0, rv.take(i as int));
                assert(rv.take(i as int).len() == i as int);
                assert(rv.take(i as int + 1).drop_last() =~= rv.take(i as int));
                assert(rv.take(i as int + 1).last() == rv[i as int]);
                assert(records@[i as int]@ == rv[i as int]);
            }
            self.apply_record(&records[i]);
            proof {
                assert(self@ == spec_apply_all(c0, rv.take(i as int + 1)));
            }
            i += 1;
        }
        proof {
            assert(rv.take(n as int) =~= rv);
        }
        self.cleanup(records);
        proof {
            assert(final(self)@ == spec_sync(c0, rv));
        }
    }
}

/// The spec views of a sequence of records.
pub open spec fn records_view(records: Seq<MetadataRecord>) -> Seq<RecordV> {
    records.map_values(|r: MetadataRecord| r@)
}

impl Song {
    /// A field-for-field copy of the row.
    pub fn duplicate(&self) -> (s: Song)
        ensures
            s@ == self@,
    {
        Song {
            id: self.id,
            performer_id: self.performer_id,
            album_id: self.album_id,
            path: self.path.clone(),
            title: self.title.clone(),
            track: self.track,
            year: self.year,
            genre: self.genre.clone(),
        }
    }
}

// ---------------------------------------------------------------------------
// Validation of loaded rows.
// ---------------------------------------------------------------------------

/// Well-formedness of a loaded performer table: distinct names, distinct
/// store-assignable ids.
pub open spec fn performers_wf(ps: Seq<PerformerV>) -> bool {
    &&& forall|i: int, j: int|
        #![trigger ps[i], ps[j]]
        0 <= i < ps.len() && 0 <= j < ps.len() && i != j ==> ps[i].name != ps[j].name && ps[i].id
            != ps[j].id
    &&& forall|i: int| 0 <= i < ps.len() ==> 1 <= (#[trigger] ps[i]).id < i64::MAX
}

/// Well-formedness of a loaded album table: distinct `(name, year)` keys,
/// distinct store-assignable ids.
pub open spec fn albums_wf(albums: Seq<AlbumV>) -> bool {
    &&& forall|i: int, j: int|
        #![trigger albums[i], albums[j]]
        0 <= i < albums.len() && 0 <= j < albums.len() && i != j ==> !(albums[i].name
            == albums[j].name && albums[i].year == albums[j].year) && albums[i].id
            != albums[j].id
    &&& forall|i: int| 0 <= i < albums.len() ==> 1 <= (#[trigger] albums[i]).id < i64::MAX
}

/// Well-formedness of a loaded song table against its parents: distinct
/// identity keys, distinct store-assignable ids, resolvable foreign keys.
pub open spec fn songs_wf(songs: Seq<SongV>, ps: Seq<PerformerV>, albums: Seq<AlbumV>) -> bool {
    &&& forall|i: int, j: int|
        #![trigger songs[i], songs[j]]
        0 <= i < songs.len() && 0 <= j < songs.len() && i != j ==> !(songs[i].performer_id
            == songs[j].performer_id && songs[i].album_id == songs[j].album_id
            && songs[i].title == songs[j].title) && songs[i].id != songs[j].id
    &&& forall|i: int| 0 <= i < songs.len() ==> 1 <= (#[trigger] songs[i]).id < i64::MAX
    &&& forall|i: int|
        0 <= i < songs.len() ==> perf_id_idx(ps, (#[trigger] songs[i]).performer_id) >= 0
    &&& forall|i: int|
        0 <= i < songs.len() ==> album_id_idx(albums, (#[trigger] songs[i]).album_id) >= 0
}

/// Well-formedness of a whole loaded row set.
pub open spec fn rows_wf(ps: Seq<PerformerV>, albums: Seq<AlbumV>, songs: Seq<SongV>) -> bool {
    performers_wf(ps) && albums_wf(albums) && songs_wf(songs, ps, albums)
}

fn performers_valid(performers: &Vec<Performer>) -> (b: bool)
    ensures
        b == performers_wf(performers@.map_values(|p: Performer| p@)),
{
    let ghost ps = performers@.map_values(|p: Performer| p@);
    let n = performers.len();
    let mut i: usize = 0;
    while i < n
        invariant
            0 <= i <= n,
            n == performers.len(),
            ps == performers@.map_values(|p: Performer| p@),
            forall|a: int, b: int|
                #![trigger ps[a], ps[b]]
                0 <= a < i && a < b < n ==> ps[a].name != ps[b].name && ps[a].id != ps[b].id,
            forall|a: int| 0 <= a < i ==> 1 <= (#[trigger] ps[a]).id < i64::MAX,
        decreases n - i,
    {
        if performers[i].id < 1 || performers[i].id == i64::MAX {
            proof {
                assert(ps[i as int] == performers@[i as int]@);
                assert(!(1 <= ps[i as int].id < i64::MAX));
            }
            return false;
        }
        let mut j: usize = i + 1;
        while j < n
            invariant
                0 <= i < j <= n,
                n == performers.len(),
                ps == performers@.map_values(|p: Performer| p@),
                forall|b: int|
                    i < b < j ==> (#[trigger] ps[b]).name != ps[i as int].name && ps[b].id != ps[
                        i as int
                    ].id,
            decreases n - j,
        {
            if performers[j].name == performers[i].name || performers[j].id == performers[i].id {
                proof {
                    assert(ps[i as int] == performers@[i as int]@);
                    assert(ps[j as int] == performers@[j as int]@);
                    assert(ps[j as int].name == ps[i as int].name || ps[j as int].id == ps[
                        i as int
                    ].id);
                }
                return false;
            }
            j += 1;
        }
        i += 1;
    }
    assert forall|a: int, b: int|
        #![trigger ps[a], ps[b]]
        0 <= a < ps.len() && 0 <= b < ps.len() && a != b implies ps[a].name != ps[b].name
        && ps[a].id != ps[b].id by {
        if a < b {
        } else {
            assert(ps[b].name != ps[a].name && ps[b].id != ps[a].id);
        }
    }
    true
}

fn albums_valid(albums: &Vec<Album>) -> (b: bool)
    ensures
        b == albums_wf(albums@.map_values(|a: Album| a@)),
{
    let ghost av = albums@.map_values(|a: Album| a@);
    let n = albums.len();
    let mut i: usize = 0;
    while i < n
        invariant
            0 <= i <= n,
            n == albums.len(),
            av == albums@.map_values(|a: Album| a@),
            forall|a: int, b: int|
                #![trigger av[a], av[b]]
                0 <= a < i && a < b < n ==> !(av[a].name == av[b].name && av[a].year
                    == av[b].year) && av[a].id != av[b].id,
            forall|a: int| 0 <= a < i ==> 1 <= (#[trigger] av[a]).id < i64::MAX,
        decreases n - i,
    {
        if albums[i].id < 1 || albums[i].id == i64::MAX {
            proof {
                assert(av[i as int] == albums@[i as int]@);
                assert(!(1 <= av[i as int].id < i64::MAX));
            }
            return false;
        }
        let mut j: usize = i + 1;
        while j < n
            invariant
                0 <= i < j <= n,
                n == albums.len(),
                av == albums@.map_values(|a: Album| a@),
                forall|b: int|
                    i < b < j ==> !((#[trigger] av[b]).name == av[i as int].name && av[b].year
                        == av[i as int].year) && av[b].id != av[i as int].id,
            decreases n - j,
        {
            if (albums[j].name == albums[i].name && albums[j].year == albums[i].year)
                || albums[j].id == albums[i].id {
                proof {
                    assert(av[i as int] == albums@[i as int]@);
                    assert(av[j as int] == albums@[j as int]@);
                    assert((av[j as int].name == av[i as int].name && av[j as int].year == av[
                        i as int
                    ].year) || av[j as int].id == av[i as int].id);
                }
                return false;
            }
            j += 1;
        }
        i += 1;
    }
    assert forall|a: int, b: int|
        #![trigger av[a], av[b]]
        0 <= a < av.len() && 0 <= b < av.len() && a != b implies !(av[a].name == av[b].name
        && av[a].year == av[b].year) && av[a].id != av[b].id by {
        if a < b {
        } else {
            assert(!(av[b].name == av[a].name && av[b].year == av[a].year) && av[b].id != av[
                a
            ].id);
        }
    }
    true
}

fn has_performer_id(performers: &Vec<Performer>, id: i64) -> (b: bool)
    ensures
        b == (perf_id_idx(performers@.map_values(|p: Performer| p@), id as int) >= 0),
{
    let ghost ps = performers@.map_values(|p: Performer| p@);
    let n = performers.len();
    let mut i: usize = 0;
    while i < n
        invariant
            0 <= i <= n,
            n == performers.len(),
            ps == performers@.map_values(|p: Performer| p@),
            forall|k: int| 0 <= k < i ==> (#[trigger] ps[k]).id != id as int,
        decreases n - i,
    {
        if performers[i].id == id {
            proof {
                lemma_perf_id_idx_some(ps, id as int, i as int);
            }
            return true;
        }
        i += 1;
    }
    proof {
        lemma_perf_id_idx(ps, id as int);
        let f = perf_id_idx(ps, id as int);
        if f >= 0 {
            assert(ps[f].id != id as int);
        }
    }
    false
}

fn has_album_id(albums: &Vec<Album>, id: i64) -> (b: bool)
    ensures
        b == (album_id_idx(albums@.map_values(|a: Album| a@), id as int) >= 0),
{
    let ghost av = albums@.map_values(|a: Album| a@);
    let n = albums.len();
    let mut i: usize = 0;
    while i < n
        invariant
            0 <= i <= n,
            n == albums.len(),
            av == albums@.map_values(|a: Album| a@),
            forall|k: int| 0 <= k < i ==> (#[trigger] av[k]).id != id as int,
        decreases n - i,
    {
        if albums[i].id == id {
            proof {
                lemma_album_id_idx_some(av, id as int, i as int);
            }
            return true;
        }
        i += 1;
    }
    proof {
        lemma_album_id_idx(av, id as int);
        let f = album_id_idx(av, id as int);
        if f >= 0 {
            assert(av[f].id != id as int);
        }
    }
    false
}

fn songs_valid(songs: &Vec<Song>, performers: &Vec<Performer>, albums: &Vec<Album>) -> (b: bool)
    ensures
        b == songs_wf(
            songs@.map_values(|s: Song| s@),
            performers@.map_values(|p: Performer| p@),
            albums@.map_values(|a: Album| a@),
        ),
{
    let ghost sv = songs@.map_values(|s: Song| s@);
    let ghost ps = performers@.map_values(|p: Performer| p@);
    let ghost av = albums@.map_values(|a: Album| a@);
    let n = songs.len();
    let mut i: usize = 0;
    while i < n
        invariant
            0 <= i <= n,
            n == songs.len(),
            sv == songs@.map_values(|s: Song| s@),
            ps == performers@.map_values(|p: Performer| p@),
            av == albums@.map_values(|a: Album| a@),
            forall|a: int, b: int|
                #![trigger sv[a], sv[b]]
                0 <= a < i && a < b < n ==> !(sv[a].performer_id == sv[b].performer_id
                    && sv[a].album_id == sv[b].album_id && sv[a].title == sv[b].title)
                    && sv[a].id != sv[b].id,
            forall|a: int| 0 <= a < i ==> 1 <= (#[trigger] sv[a]).id < i64::MAX,
            forall|a: int| 0 <= a < i ==> perf_id_idx(ps, (#[trigger] sv[a]).performer_id) >= 0,
            forall|a: int| 0 <= a < i ==> album_id_idx(av, (#[trigger] sv[a]).album_id) >= 0,
        decreases n - i,
    {
        if songs[i].id < 1 || songs[i].id == i64::MAX {
            proof {
                assert(sv[i as int] == songs@[i as int]@);
                assert(!(1 <= sv[i as int].id < i64::MAX));
            }
            return false;
        }
        if !has_performer_id(performers, songs[i].performer_id) {
            proof {
                assert(sv[i as int] == songs@[i as int]@);
                assert(perf_id_idx(ps, sv[i as int].performer_id) < 0);
            }
            return false;
        }
        if !has_album_id(albums, songs[i].album_id) {
            proof {
                assert(sv[i as int] == songs@[i as int]@);
                assert(album_id_idx(av, sv[i as int].album_id) < 0);
            }
            return false;
        }
        let mut j: usize = i + 1;
        while j < n
            invariant
                0 <= i < j <= n,
                n == songs.len(),
                sv == songs@.map_values(|s: Song| s@),
                forall|b: int|
                    i < b < j ==> !((#[trigger] sv[b]).performer_id == sv[i as int].performer_id
                        && sv[b].album_id == sv[i as int].album_id && sv[b].title == sv[
                        i as int
                    ].title) && sv[b].id != sv[i as int].id,
            decreases n - j,
        {
            if (songs[j].performer_id == songs[i].performer_id && songs[j].album_id
                == songs[i].album_id && songs[j].title == songs[i].title) || songs[j].id
                == songs[i].id {
                proof {
                    assert(sv[i as int] == songs@[i as int]@);
                    assert(sv[j as int] == songs@[j as int]@);
                    assert((sv[j as int].performer_id == sv[i as int].performer_id && sv[
                        j as int
                    ].album_id == sv[i as int].album_id && sv[j as int].title == sv[i as int].title)
                        || sv[j as int].id == sv[i as int].id);
                }
                return false;
            }
            j += 1;
        }
        i += 1;
    }
    assert forall|a: int, b: int|
        #![trigger sv[a], sv[b]]
        0 <= a < sv.len() && 0 <= b < sv.len() && a != b implies !(sv[a].performer_id
        == sv[b].performer_id && sv[a].album_id == sv[b].album_id && sv[a].title == sv[b].title)
        && sv[a].id != sv[b].id by {
        if a < b {
        } else {
            assert(!(sv[b].performer_id == sv[a].performer_id && sv[b].album_id == sv[a].album_id
                && sv[b].title == sv[a].title) && sv[b].id != sv[a].id);
        }
    }
    true
}

fn next_performer_id_for(performers: &Vec<Performer>) -> (next: i64)
    requires
        forall|i: int|
            0 <= i < performers@.len() ==> 1 <= (#[trigger] performers@[i]).id < i64::MAX,
    ensures
        1 <= next,
        forall|i: int|
            0 <= i < performers@.len() ==> (#[trigger] performers@[i]).id < next as int,
{
    let n = performers.len();
    let mut next: i64 = 1;
    let mut i: usize = 0;
    while i < n
        invariant
            0 <= i <= n,
            n == performers.len(),
            1 <= next,
            forall|k: int|
                0 <= k < performers@.len() ==> 1 <= (#[trigger] performers@[k]).id < i64::MAX,
            forall|k: int| 0 <= k < i ==> (#[trigger] performers@[k]).id < next as int,
        decreases n - i,
    {
        if performers[i].id >= next {
            next = performers[i].id + 1;
        }
        i += 1;
    }
    next
}

fn next_album_id_for(albums: &Vec<Album>) -> (next: i64)
    requires
        forall|i: int| 0 <= i < albums@.len() ==> 1 <= (#[trigger] albums@[i]).id < i64::MAX,
    ensures
        1 <= next,
        forall|i: int| 0 <= i < albums@.len() ==> (#[trigger] albums@[i]).id < next as int,
{
    let n = albums.len();
    let mut next: i64 = 1;
    let mut i: usize = 0;
    while i < n
        invariant
            0 <= i <= n,
            n == albums.len(),
            1 <= next,
            forall|k: int| 0 <= k < albums@.len() ==> 1 <= (#[trigger] albums@[k]).id < i64::MAX,
            forall|k: int| 0 <= k < i ==> (#[trigger] albums@[k]).id < next as int,
        decreases n - i,
    {
        if albums[i].id >= next {
            next = albums[i].id + 1;
        }
        i += 1;
    }
    next
}

fn next_song_id_for(songs: &Vec<Song>) -> (next: i64)
    requires
        forall|i: int| 0 <= i < songs@.len() ==> 1 <= (#[trigger] songs@[i]).id < i64::MAX,
    ensures
        1 <= next,
        forall|i: int| 0 <= i < songs@.len() ==> (#[trigger] songs@[i]).id < next as int,
{
    let n = songs.len();
    let mut next: i64 = 1;
    let mut i: usize = 0;
    while i < n
        invariant
            0 <= i <= n,
            n == songs.len(),
            1 <= next,
            forall|k: int| 0 <= k < songs@.len() ==> 1 <= (#[trigger] songs@[k]).id < i64::MAX,
            forall|k: int| 0 <= k < i ==> (#[trigger] songs@[k]).id < next as int,
        decreases n - i,
    {
        if songs[i].id >= next {
            next = songs[i].id + 1;
        }
        i += 1;
    }
    next
}

impl Catalog {
    /// Assemble a catalog from loaded rows, validating the relational
    /// invariants and assigning the next ids above the loaded ones. Returns
    /// nothing exactly when the rows violate an invariant.
    pub fn from_rows(performers: Vec<Performer>, albums: Vec<Album>, songs: Vec<Song>) -> (r:
        Option<Catalog>)
        ensures
            match r {
                Some(c) => {
                    &&& rows_wf(
                        performers@.map_values(|p: Performer| p@),
                        albums@.map_values(|a: Album| a@),
                        songs@.map_values(|s: Song| s@),
                    )
                    &&& c@.performers == performers@.map_values(|p: Performer| p@)
                    &&& c@.albums == albums@.map_values(|a: Album| a@)
                    &&& c@.songs == songs@.map_values(|s: Song| s@)
                    &&& c@.wf()
                },
                None => !rows_wf(
                    performers@.map_values(|p: Performer| p@),
                    albums@.map_values(|a: Album| a@),
                    songs@.map_values(|s: Song| s@),
                ),
            },
    {
        if !performers_valid(&performers) {
            return None;
        }
        if !albums_valid(&albums) {
            return None;
        }
        if !songs_valid(&songs, &performers, &albums) {
            return None;
        }
        proof {
            assert forall|i: int| 0 <= i < performers@.len() implies 1 <= (
            #[trigger] performers@[i]).id < i64::MAX by {
                assert(performers@.map_values(|p: Performer| p@)[i] == performers@[i]@);
            }
            assert forall|i: int| 0 <= i < albums@.len() implies 1 <= (#[trigger] albums@[i]).id
                < i64::MAX by {
                assert(albums@.map_values(|a: Album| a@)[i] == albums@[i]@);
            }
            assert forall|i: int| 0 <= i < songs@.len() implies 1 <= (#[trigger] songs@[i]).id
                < i64::MAX by {
                assert(songs@.map_values(|s: Song| s@)[i] == songs@[i]@);
            }
        }
        let next_performer_id = next_performer_id_for(&performers);
        let next_album_id = next_album_id_for(&albums);
        let next_song_id = next_song_id_for(&songs);
        let c = Catalog { performers, albums, songs, next_performer_id, next_album_id, next_song_id };
        proof {
            assert(c@.wf());
        }
        Some(c)
    }
}

/// Reconcile one record into the catalog: resolve the performer and the
/// album first, then upsert the song under their ids.
pub fn populate_database(catalog: &mut Catalog, record: &MetadataRecord)
    requires
        old(catalog)@.wf(),
        old(catalog).next_performer_id < i64::MAX,
        old(catalog).next_album_id < i64::MAX,
        old(catalog).next_song_id < i64::MAX,
    ensures
        final(catalog)@ == spec_apply(old(catalog)@, record@),
        final(catalog)@.wf(),
{
    catalog.apply_record(record);
}

/// Insert one song's data into the catalog; the work is done by
/// `populate_database`.
pub fn insert_song_into_database(catalog: &mut Catalog, record: &MetadataRecord)
    requires
        old(catalog)@.wf(),
        old(catalog).next_performer_id < i64::MAX,
        old(catalog).next_album_id < i64::MAX,
        old(catalog).next_song_id < i64::MAX,
    ensures
        final(catalog)@ == spec_apply(old(catalog)@, record@),
        final(catalog)@.wf(),
{
    populate_database(catalog, record);
}

} // verus!
