//! Mathematical model of the catalog and of the synchronization pass.
//!
//! The executable types in `catalog` view into the spec-level rows defined
//! here, and every executable operation is specified as equal to one of the
//! spec functions below. The laws in `laws` are proved over this model.

use vstd::prelude::*;

verus! {

/// Spec-level performer row. Identity key: `name`.
#[verifier::ext_equal]
pub struct PerformerV {
    pub id: int,
    pub name: Seq<char>,
}

/// Spec-level album row. Identity key: `(name, year)`; `path` is a non-key
/// attribute corrected in place when a re-sighted album moved directories.
#[verifier::ext_equal]
pub struct AlbumV {
    pub id: int,
    pub name: Seq<char>,
    pub year: int,
    pub path: Seq<char>,
}

/// Spec-level song row. Identity key: `(performer_id, album_id, title)`;
/// `track`, `year`, `genre` and `path` are non-key attributes.
#[verifier::ext_equal]
pub struct SongV {
    pub id: int,
    pub performer_id: int,
    pub album_id: int,
    pub path: Seq<char>,
    pub title: Seq<char>,
    pub track: int,
    pub year: int,
    pub genre: Seq<char>,
}

/// Spec view of one extracted metadata record.
#[verifier::ext_equal]
pub struct RecordV {
    pub title: Seq<char>,
    pub artist: Seq<char>,
    pub album: Seq<char>,
    pub track: int,
    pub year: int,
    pub genre: Seq<char>,
    pub path: Seq<char>,
    pub album_path: Seq<char>,
}

/// Spec view of the whole catalog: the three entity tables and the next
/// store-assigned id of each.
#[verifier::ext_equal]
pub struct CatalogV {
    pub performers: Seq<PerformerV>,
    pub albums: Seq<AlbumV>,
    pub songs: Seq<SongV>,
    pub next_performer_id: int,
    pub next_album_id: int,
    pub next_song_id: int,
}

// ---------------------------------------------------------------------------
// Finders: index of the first row matching an identity key, or -1.
// ---------------------------------------------------------------------------

/// Index of the first performer named `name`, or -1.
pub open spec fn perf_idx(ps: Seq<PerformerV>, name: Seq<char>) -> int
    decreases ps.len(),
{
    if ps.len() == 0 {
        -1
    } else if ps[0].name == name {
        0
    } else {
        let r = perf_idx(ps.drop_first(), name);
        if r == -1 {
            -1
        } else {
            r + 1
        }
    }
}

/// Index of the first performer with the given id, or -1.
pub open spec fn perf_id_idx(ps: Seq<PerformerV>, id: int) -> int
    decreases ps.len(),
{
    if ps.len() == 0 {
        -1
    } else if ps[0].id == id {
        0
    } else {
        let r = perf_id_idx(ps.drop_first(), id);
        if r == -1 {
            -1
        } else {
            r + 1
        }
    }
}

/// Index of the first album keyed `(name, year)`, or -1.
pub open spec fn album_idx(albums: Seq<AlbumV>, name: Seq<char>, year: int) -> int
    decreases albums.len(),
{
    if albums.len() == 0 {
        -1
    } else if albums[0].name == name && albums[0].year == year {
        0
    } else {
        let r = album_idx(albums.drop_first(), name, year);
        if r == -1 {
            -1
        } else {
            r + 1
        }
    }
}

/// Index of the first album with the given id, or -1.
pub open spec fn album_id_idx(albums: Seq<AlbumV>, id: int) -> int
    decreases albums.len(),
{
    if albums.len() == 0 {
        -1
    } else if albums[0].id == id {
        0
    } else {
        let r = album_id_idx(albums.drop_first(), id);
        if r == -1 {
            -1
        } else {
            r + 1
        }
    }
}

/// Index of the first song keyed `(performer_id, album_id, title)`, or -1.
pub open spec fn song_idx(songs: Seq<SongV>, pid: int, aid: int, title: Seq<char>) -> int
    decreases songs.len(),
{
    if songs.len() == 0 {
        -1
    } else if songs[0].performer_id == pid && songs[0].album_id == aid && songs[0].title
        == title {
        0
    } else {
        let r = song_idx(songs.drop_first(), pid, aid, title);
        if r == -1 {
            -1
        } else {
            r + 1
        }
    }
}

/// Index of the first song with the given title, or -1.
pub open spec fn song_title_idx(songs: Seq<SongV>, title: Seq<char>) -> int
    decreases songs.len(),
{
    if songs.len() == 0 {
        -1
    } else if songs[0].title == title {
        0
    } else {
        let r = song_title_idx(songs.drop_first(), title);
        if r == -1 {
            -1
        } else {
            r + 1
        }
    }
}

// ---------------------------------------------------------------------------
// Characterizations of the finders.
// ---------------------------------------------------------------------------

pub proof fn lemma_perf_idx(ps: Seq<PerformerV>, name: Seq<char>)
    ensures
        -1 <= perf_idx(ps, name) < ps.len(),
        perf_idx(ps, name) >= 0 ==> ps[perf_idx(ps, name)].name == name,
        forall|i: int| 0 <= i < perf_idx(ps, name) ==> (#[trigger] ps[i]).name != name,
        perf_idx(ps, name) == -1 ==> forall|i: int|
            0 <= i < ps.len() ==> (#[trigger] ps[i]).name != name,
    decreases ps.len(),
{
    if ps.len() > 0 && ps[0].name != name {
        lemma_perf_idx(ps.drop_first(), name);
        assert(forall|i: int| 1 <= i < ps.len() ==> ps.drop_first()[i - 1] == #[trigger] ps[i]);
    }
}

pub proof fn lemma_perf_id_idx(ps: Seq<PerformerV>, id: int)
    ensures
        -1 <= perf_id_idx(ps, id) < ps.len(),
        perf_id_idx(ps, id) >= 0 ==> ps[perf_id_idx(ps, id)].id == id,
        forall|i: int| 0 <= i < perf_id_idx(ps, id) ==> (#[trigger] ps[i]).id != id,
        perf_id_idx(ps, id) == -1 ==> forall|i: int|
            0 <= i < ps.len() ==> (#[trigger] ps[i]).id != id,
    decreases ps.len(),
{
    if ps.len() > 0 && ps[0].id != id {
        lemma_perf_id_idx(ps.drop_first(), id);
        assert(forall|i: int| 1 <= i < ps.len() ==> ps.drop_first()[i - 1] == #[trigger] ps[i]);
    }
}

pub proof fn lemma_album_idx(albums: Seq<AlbumV>, name: Seq<char>, year: int)
    ensures
        -1 <= album_idx(albums, name, year) < albums.len(),
        album_idx(albums, name, year) >= 0 ==> albums[album_idx(albums, name, year)].name
            == name && albums[album_idx(albums, name, year)].year == year,
        forall|i: int|
            0 <= i < album_idx(albums, name, year) ==> !((#[trigger] albums[i]).name == name
                && albums[i].year == year),
        album_idx(albums, name, year) == -1 ==> forall|i: int|
            0 <= i < albums.len() ==> !((#[trigger] albums[i]).name == name && albums[i].year
                == year),
    decreases albums.len(),
{
    if albums.len() > 0 && !(albums[0].name == name && albums[0].year == year) {
        lemma_album_idx(albums.drop_first(), name, year);
        assert(forall|i: int|
            1 <= i < albums.len() ==> albums.drop_first()[i - 1] == #[trigger] albums[i]);
    }
}

pub proof fn lemma_album_id_idx(albums: Seq<AlbumV>, id: int)
    ensures
        -1 <= album_id_idx(albums, id) < albums.len(),
        album_id_idx(albums, id) >= 0 ==> albums[album_id_idx(albums, id)].id == id,
        forall|i: int| 0 <= i < album_id_idx(albums, id) ==> (#[trigger] albums[i]).id != id,
        album_id_idx(albums, id) == -1 ==> forall|i: int|
            0 <= i < albums.len() ==> (#[trigger] albums[i]).id != id,
    decreases albums.len(),
{
    if albums.len() > 0 && albums[0].id != id {
        lemma_album_id_idx(albums.drop_first(), id);
        assert(forall|i: int|
            1 <= i < albums.len() ==> albums.drop_first()[i - 1] == #[trigger] albums[i]);
    }
}

pub proof fn lemma_song_idx(songs: Seq<SongV>, pid: int, aid: int, title: Seq<char>)
    ensures
        -1 <= song_idx(songs, pid, aid, title) < songs.len(),
        song_idx(songs, pid, aid, title) >= 0 ==> songs[song_idx(
            songs,
            pid,
            aid,
            title,
        )].performer_id == pid && songs[song_idx(songs, pid, aid, title)].album_id == aid
            && songs[song_idx(songs, pid, aid, title)].title == title,
        forall|i: int|
            0 <= i < song_idx(songs, pid, aid, title) ==> !((#[trigger] songs[i]).performer_id
                == pid && songs[i].album_id == aid && songs[i].title == title),
        song_idx(songs, pid, aid, title) == -1 ==> forall|i: int|
            0 <= i < songs.len() ==> !((#[trigger] songs[i]).performer_id == pid
                && songs[i].album_id == aid && songs[i].title == title),
    decreases songs.len(),
{
    if songs.len() > 0 && !(songs[0].performer_id == pid && songs[0].album_id == aid
        && songs[0].title == title) {
        lemma_song_idx(songs.drop_first(), pid, aid, title);
        assert(forall|i: int|
            1 <= i < songs.len() ==> songs.drop_first()[i - 1] == #[trigger] songs[i]);
    }
}

pub proof fn lemma_song_title_idx(songs: Seq<SongV>, title: Seq<char>)
    ensures
        -1 <= song_title_idx(songs, title) < songs.len(),
        song_title_idx(songs, title) >= 0 ==> songs[song_title_idx(songs, title)].title == title,
        forall|i: int| 0 <= i < song_title_idx(songs, title) ==> (#[trigger] songs[i]).title
            != title,
        song_title_idx(songs, title) == -1 ==> forall|i: int|
            0 <= i < songs.len() ==> (#[trigger] songs[i]).title != title,
    decreases songs.len(),
{
    if songs.len() > 0 && songs[0].title != title {
        lemma_song_title_idx(songs.drop_first(), title);
        assert(forall|i: int|
            1 <= i < songs.len() ==> songs.drop_first()[i - 1] == #[trigger] songs[i]);
    }
}

// ---------------------------------------------------------------------------
// The reconciliation pass, as spec functions.
// ---------------------------------------------------------------------------

/// Whether some performer row is named `name`.
pub open spec fn has_performer(c: CatalogV, name: Seq<char>) -> bool {
    perf_idx(c.performers, name) >= 0
}

/// Whether some album row is keyed `(name, year)`.
pub open spec fn has_album(c: CatalogV, name: Seq<char>, year: int) -> bool {
    album_idx(c.albums, name, year) >= 0
}

/// Whether some song row is keyed `(pid, aid, title)`.
pub open spec fn has_song(c: CatalogV, pid: int, aid: int, title: Seq<char>) -> bool {
    song_idx(c.songs, pid, aid, title) >= 0
}

/// Resolve a performer by name: the id of the existing row, or a fresh row
/// with the next id. (A looked-up row is never updated: the lookup key is the
/// name itself, so a name "update" could never change anything.)
pub open spec fn spec_resolve_performer(c: CatalogV, name: Seq<char>) -> (CatalogV, int) {
    let i = perf_idx(c.performers, name);
    if i >= 0 {
        (c, c.performers[i].id)
    } else {
        (
            CatalogV {
                performers: c.performers.push(
                    PerformerV { id: c.next_performer_id, name: name },
                ),
                next_performer_id: c.next_performer_id + 1,
                ..c
            },
            c.next_performer_id,
        )
    }
}

/// Resolve an album by its `(name, year)` identity: insert a fresh row when
/// absent; when present with a different path (the files moved), correct the
/// stored path in place rather than create a duplicate row.
pub open spec fn spec_resolve_album(
    c: CatalogV,
    name: Seq<char>,
    year: int,
    path: Seq<char>,
) -> (CatalogV, int) {
    let i = album_idx(c.albums, name, year);
    if i >= 0 {
        let a = c.albums[i];
        if a.path == path {
            (c, a.id)
        } else {
            (CatalogV { albums: c.albums.update(i, AlbumV { path: path, ..a }), ..c }, a.id)
        }
    } else {
        (
            CatalogV {
                albums: c.albums.push(
                    AlbumV { id: c.next_album_id, name: name, year: year, path: path },
                ),
                next_album_id: c.next_album_id + 1,
                ..c
            },
            c.next_album_id,
        )
    }
}

/// Resolve a song by its `(performer id, album id, title)` identity: insert a
/// fresh row when absent; update the non-key attributes in place when any of
/// them changed; otherwise leave the row untouched.
pub open spec fn spec_upsert_song(c: CatalogV, pid: int, aid: int, r: RecordV) -> CatalogV {
    let i = song_idx(c.songs, pid, aid, r.title);
    if i >= 0 {
        let s = c.songs[i];
        if s.track == r.track && s.year == r.year && s.genre == r.genre && s.path == r.path {
            c
        } else {
            CatalogV {
                songs: c.songs.update(
                    i,
                    SongV { path: r.path, track: r.track, year: r.year, genre: r.genre, ..s },
                ),
                ..c
            }
        }
    } else {
        CatalogV {
            songs: c.songs.push(
                SongV {
                    id: c.next_song_id,
                    performer_id: pid,
                    album_id: aid,
                    path: r.path,
                    title: r.title,
                    track: r.track,
                    year: r.year,
                    genre: r.genre,
                },
            ),
            next_song_id: c.next_song_id + 1,
            ..c
        }
    }
}

/// Reconcile one record: parents first, then the song, so that the song's
/// foreign keys always reference existing rows.
pub open spec fn spec_apply(c: CatalogV, r: RecordV) -> CatalogV {
    let (c1, pid) = spec_resolve_performer(c, r.artist);
    let (c2, aid) = spec_resolve_album(c1, r.album, r.year, r.album_path);
    spec_upsert_song(c2, pid, aid, r)
}

/// Reconcile a whole crawl sequence, in order.
pub open spec fn spec_apply_all(c: CatalogV, rs: Seq<RecordV>) -> CatalogV
    decreases rs.len(),
{
    if rs.len() == 0 {
        c
    } else {
        spec_apply(spec_apply_all(c, rs.drop_last()), rs.last())
    }
}

/// Whether some record of the crawl carries this title.
pub open spec fn title_in(rs: Seq<RecordV>, t: Seq<char>) -> bool {
    exists|i: int| 0 <= i < rs.len() && (#[trigger] rs[i]).title == t
}

/// The songs that survive the cleanup pass: those whose title appears
/// somewhere in the crawl, in their original order.
pub open spec fn kept_songs(songs: Seq<SongV>, rs: Seq<RecordV>) -> Seq<SongV>
    decreases songs.len(),
{
    if songs.len() == 0 {
        songs
    } else {
        let rest = kept_songs(songs.drop_last(), rs);
        if title_in(rs, songs.last().title) {
            rest.push(songs.last())
        } else {
            rest
        }
    }
}

/// The cleanup pass: songs whose title no longer appears anywhere in the
/// crawl are removed; performers and albums are never deleted.
pub open spec fn spec_cleanup(c: CatalogV, rs: Seq<RecordV>) -> CatalogV {
    CatalogV { songs: kept_songs(c.songs, rs), ..c }
}

/// One full synchronization pass: reconcile every record, then clean up.
pub open spec fn spec_sync(c: CatalogV, rs: Seq<RecordV>) -> CatalogV {
    spec_cleanup(spec_apply_all(c, rs), rs)
}

/// The catalog of a fresh store: no rows, ids assigned from 1.
pub open spec fn empty_catalog() -> CatalogV {
    CatalogV {
        performers: Seq::empty(),
        albums: Seq::empty(),
        songs: Seq::empty(),
        next_performer_id: 1,
        next_album_id: 1,
        next_song_id: 1,
    }
}

// ---------------------------------------------------------------------------
// Well-formedness.
// ---------------------------------------------------------------------------

impl CatalogV {
    /// The relational invariants: ids are store-assigned (positive, below the
    /// next id, mutually distinct), identity keys are unique, and every
    /// song's foreign keys reference existing parent rows.
    pub open spec fn wf(self) -> bool {
        &&& 1 <= self.next_performer_id
        &&& 1 <= self.next_album_id
        &&& 1 <= self.next_song_id
        &&& forall|i: int|
            0 <= i < self.performers.len() ==> 1 <= (#[trigger] self.performers[i]).id
                < self.next_performer_id
        &&& forall|i: int, j: int|
            #![trigger self.performers[i], self.performers[j]]
            0 <= i < self.performers.len() && 0 <= j < self.performers.len() && i != j
                ==> self.performers[i].name != self.performers[j].name && self.performers[i].id
                != self.performers[j].id
        &&& forall|i: int|
            0 <= i < self.albums.len() ==> 1 <= (#[trigger] self.albums[i]).id
                < self.next_album_id
        &&& forall|i: int, j: int|
            #![trigger self.albums[i], self.albums[j]]
            0 <= i < self.albums.len() && 0 <= j < self.albums.len() && i != j ==> !(
            self.albums[i].name == self.albums[j].name && self.albums[i].year
                == self.albums[j].year) && self.albums[i].id != self.albums[j].id
        &&& forall|i: int|
            0 <= i < self.songs.len() ==> 1 <= (#[trigger] self.songs[i]).id < self.next_song_id
        &&& forall|i: int, j: int|
            #![trigger self.songs[i], self.songs[j]]
            0 <= i < self.songs.len() && 0 <= j < self.songs.len() && i != j ==> !(
            self.songs[i].performer_id == self.songs[j].performer_id && self.songs[i].album_id
                == self.songs[j].album_id && self.songs[i].title == self.songs[j].title)
                && self.songs[i].id != self.songs[j].id
        &&& forall|i: int|
            0 <= i < self.songs.len() ==> perf_id_idx(
                self.performers,
                (#[trigger] self.songs[i]).performer_id,
            ) >= 0
        &&& forall|i: int|
            0 <= i < self.songs.len() ==> album_id_idx(
                self.albums,
                (#[trigger] self.songs[i]).album_id,
            ) >= 0
    }
}

// ---------------------------------------------------------------------------
// Finder helpers: a witness forces a hit, a first hit fixes the index, and
// an extension that keeps ids keeps the index.
// ---------------------------------------------------------------------------

pub proof fn lemma_perf_idx_some(ps: Seq<PerformerV>, name: Seq<char>, i: int)
    requires
        0 <= i < ps.len(),
        ps[i].name == name,
    ensures
        0 <= perf_idx(ps, name) < ps.len(),
        ps[perf_idx(ps, name)].name == name,
{
    lemma_perf_idx(ps, name);
}

pub proof fn lemma_perf_id_idx_some(ps: Seq<PerformerV>, id: int, i: int)
    requires
        0 <= i < ps.len(),
        ps[i].id == id,
    ensures
        0 <= perf_id_idx(ps, id) < ps.len(),
        ps[perf_id_idx(ps, id)].id == id,
{
    lemma_perf_id_idx(ps, id);
}

pub proof fn lemma_album_idx_some(albums: Seq<AlbumV>, name: Seq<char>, year: int, i: int)
    requires
        0 <= i < albums.len(),
        albums[i].name == name,
        albums[i].year == year,
    ensures
        0 <= album_idx(albums, name, year) < albums.len(),
        albums[album_idx(albums, name, year)].name == name,
        albums[album_idx(albums, name, year)].year == year,
{
    lemma_album_idx(albums, name, year);
}

pub proof fn lemma_album_id_idx_some(albums: Seq<AlbumV>, id: int, i: int)
    requires
        0 <= i < albums.len(),
        albums[i].id == id,
    ensures
        0 <= album_id_idx(albums, id) < albums.len(),
        albums[album_id_idx(albums, id)].id == id,
{
    lemma_album_id_idx(albums, id);
}

pub proof fn lemma_song_idx_some(songs: Seq<SongV>, pid: int, aid: int, title: Seq<char>, i: int)
    requires
        0 <= i < songs.len(),
        songs[i].performer_id == pid,
        songs[i].album_id == aid,
        songs[i].title == title,
    ensures
        0 <= song_idx(songs, pid, aid, title) < songs.len(),
        songs[song_idx(songs, pid, aid, title)].performer_id == pid,
        songs[song_idx(songs, pid, aid, title)].album_id == aid,
        songs[song_idx(songs, pid, aid, title)].title == title,
{
    lemma_song_idx(songs, pid, aid, title);
}

pub proof fn lemma_perf_id_idx_at(ps: Seq<PerformerV>, id: int, k: int)
    requires
        0 <= k < ps.len(),
        ps[k].id == id,
        forall|j: int| 0 <= j < k ==> (#[trigger] ps[j]).id != id,
    ensures
        perf_id_idx(ps, id) == k,
{
    lemma_perf_id_idx(ps, id);
}

pub proof fn lemma_album_id_idx_at(albums: Seq<AlbumV>, id: int, k: int)
    requires
        0 <= k < albums.len(),
        albums[k].id == id,
        forall|j: int| 0 <= j < k ==> (#[trigger] albums[j]).id != id,
    ensures
        album_id_idx(albums, id) == k,
{
    lemma_album_id_idx(albums, id);
}

pub proof fn lemma_song_title_idx_at(songs: Seq<SongV>, title: Seq<char>, k: int)
    requires
        0 <= k < songs.len(),
        songs[k].title == title,
        forall|j: int| 0 <= j < k ==> (#[trigger] songs[j]).title != title,
    ensures
        song_title_idx(songs, title) == k,
{
    lemma_song_title_idx(songs, title);
}

/// Extending a performer table without touching existing ids moves no
/// resolved id lookup.
pub proof fn lemma_perf_id_idx_stable(ps1: Seq<PerformerV>, ps2: Seq<PerformerV>, id: int)
    requires
        ps1.len() <= ps2.len(),
        forall|i: int| 0 <= i < ps1.len() ==> (#[trigger] ps2[i]).id == ps1[i].id,
        perf_id_idx(ps1, id) >= 0,
    ensures
        perf_id_idx(ps2, id) == perf_id_idx(ps1, id),
{
    lemma_perf_id_idx(ps1, id);
    lemma_perf_id_idx_at(ps2, id, perf_id_idx(ps1, id));
}

/// Extending an album table without touching existing ids moves no resolved
/// id lookup.
pub proof fn lemma_album_id_idx_stable(a1: Seq<AlbumV>, a2: Seq<AlbumV>, id: int)
    requires
        a1.len() <= a2.len(),
        forall|i: int| 0 <= i < a1.len() ==> (#[trigger] a2[i]).id == a1[i].id,
        album_id_idx(a1, id) >= 0,
    ensures
        album_id_idx(a2, id) == album_id_idx(a1, id),
{
    lemma_album_id_idx(a1, id);
    lemma_album_id_idx_at(a2, id, album_id_idx(a1, id));
}

// ---------------------------------------------------------------------------
// What each reconciliation step does to a well-formed catalog.
// ---------------------------------------------------------------------------

/// Resolving a performer preserves well-formedness, touches nothing but the
/// performer table, at most appends one row, and returns the id of a row
/// named `name`.
pub proof fn lemma_resolve_performer_props(c: CatalogV, name: Seq<char>)
    requires
        c.wf(),
    ensures
        ({
            let (c2, pid) = spec_resolve_performer(c, name);
            &&& c2.wf()
            &&& c2.albums == c.albums
            &&& c2.songs == c.songs
            &&& c2.next_album_id == c.next_album_id
            &&& c2.next_song_id == c.next_song_id
            &&& c.performers.len() <= c2.performers.len() <= c.performers.len() + 1
            &&& forall|i: int|
                0 <= i < c.performers.len() ==> #[trigger] c2.performers[i] == c.performers[i]
            &&& c.next_performer_id <= c2.next_performer_id <= c.next_performer_id + 1
            &&& 0 <= perf_id_idx(c2.performers, pid) < c2.performers.len()
            &&& c2.performers[perf_id_idx(c2.performers, pid)].name == name
            &&& c2.performers[perf_id_idx(c2.performers, pid)].id == pid
            &&& has_performer(c2, name)
            &&& 1 <= pid < c2.next_performer_id
            &&& (has_performer(c, name) ==> c2 == c)
            &&& (!has_performer(c, name) ==> c2.performers == c.performers.push(
                PerformerV { id: c.next_performer_id, name: name },
            ) && pid == c.next_performer_id && c2.next_performer_id == c.next_performer_id + 1)
            &&& forall|n: Seq<char>|
                #[trigger] has_performer(c, n) ==> has_performer(c2, n)
        }),
{
    let (c2, pid) = spec_resolve_performer(c, name);
    lemma_perf_idx(c.performers, name);
    let i = perf_idx(c.performers, name);
    if i >= 0 {
        // Hit: the catalog is unchanged and pid is the id at the hit.
        lemma_perf_id_idx_some(c.performers, pid, i);
        let k = perf_id_idx(c.performers, pid);
        // id uniqueness forces the id lookup back onto the hit.
        assert(c.performers[k].id == c.performers[i].id);
        assert(k == i);
        assert(forall|n: Seq<char>| #[trigger] has_performer(c, n) ==> has_performer(c2, n));
    } else {
        // Miss: one fresh row is appended with the next id.
        let ps2 = c.performers.push(PerformerV { id: c.next_performer_id, name: name });
        assert(ps2[c.performers.len() as int].id == c.next_performer_id);
        lemma_perf_id_idx_some(ps2, c.next_performer_id, c.performers.len() as int);
        assert forall|n: Seq<char>| #[trigger] has_performer(c, n) implies has_performer(
            c2,
            n,
        ) by {
            lemma_perf_idx(c.performers, n);
            let j = perf_idx(c.performers, n);
            lemma_perf_idx_some(ps2, n, j);
        }
        lemma_perf_idx_some(ps2, name, c.performers.len() as int);
        // well-formedness of the extended table
        assert forall|a: int, b: int|
            #![trigger ps2[a], ps2[b]]
            0 <= a < ps2.len() && 0 <= b < ps2.len() && a != b implies ps2[a].name != ps2[b].name
            && ps2[a].id != ps2[b].id by {
            if a < c.performers.len() && b < c.performers.len() {
            } else if a < c.performers.len() {
                assert(ps2[b] == PerformerV { id: c.next_performer_id, name: name });
                assert(ps2[a] == c.performers[a]);
            } else {
                assert(ps2[a] == PerformerV { id: c.next_performer_id, name: name });
                assert(ps2[b] == c.performers[b]);
            }
        }
        // songs' performer foreign keys still resolve
        assert forall|s: int| 0 <= s < c2.songs.len() implies perf_id_idx(
            c2.performers,
            (#[trigger] c2.songs[s]).performer_id,
        ) >= 0 by {
            lemma_perf_id_idx_stable(c.performers, ps2, c.songs[s].performer_id);
        }
    }
}

/// Resolving an album preserves well-formedness, touches nothing but the
/// album table, keeps every existing row's id, name and year, at most appends
/// one row, and returns the id of a row keyed `(name, year)` that now carries
/// exactly `path`.
pub proof fn lemma_resolve_album_props(c: CatalogV, name: Seq<char>, year: int, path: Seq<char>)
    requires
        c.wf(),
    ensures
        ({
            let (c2, aid) = spec_resolve_album(c, name, year, path);
            &&& c2.wf()
            &&& c2.performers == c.performers
            &&& c2.songs == c.songs
            &&& c2.next_performer_id == c.next_performer_id
            &&& c2.next_song_id == c.next_song_id
            &&& c.albums.len() <= c2.albums.len() <= c.albums.len() + 1
            &&& forall|i: int|
                0 <= i < c.albums.len() ==> (#[trigger] c2.albums[i]).id == c.albums[i].id
                    && c2.albums[i].name == c.albums[i].name && c2.albums[i].year
                    == c.albums[i].year
            &&& c.next_album_id <= c2.next_album_id <= c.next_album_id + 1
            &&& 0 <= album_id_idx(c2.albums, aid) < c2.albums.len()
            &&& c2.albums[album_id_idx(c2.albums, aid)] == AlbumV {
                id: aid,
                name: name,
                year: year,
                path: path,
            }
            &&& has_album(c2, name, year)
            &&& 1 <= aid < c2.next_album_id
            &&& (has_album(c, name, year) ==> c2.albums.len() == c.albums.len()
                && c2.next_album_id == c.next_album_id && aid == c.albums[album_idx(
                c.albums,
                name,
                year,
            )].id && forall|i: int|
                0 <= i < c.albums.len() && i != album_idx(c.albums, name, year)
                    ==> #[trigger] c2.albums[i] == c.albums[i])
            &&& (!has_album(c, name, year) ==> c2.albums == c.albums.push(
                AlbumV { id: c.next_album_id, name: name, year: year, path: path },
            ) && aid == c.next_album_id && c2.next_album_id == c.next_album_id + 1)
            &&& forall|n: Seq<char>, y: int|
                #[trigger] has_album(c, n, y) ==> has_album(c2, n, y)
            &&& forall|id: int|
                #[trigger] album_id_idx(c.albums, id) >= 0 ==> album_id_idx(c2.albums, id)
                    == album_id_idx(c.albums, id)
        }),
{
    let (c2, aid) = spec_resolve_album(c, name, year, path);
    lemma_album_idx(c.albums, name, year);
    let i = album_idx(c.albums, name, year);
    if i >= 0 {
        let a = c.albums[i];
        let as2 = c2.albums;
        // Hit: at most the path at the hit changes; ids, names and years stay.
        assert(forall|k: int|
            0 <= k < c.albums.len() ==> (#[trigger] as2[k]).id == c.albums[k].id && as2[k].name
                == c.albums[k].name && as2[k].year == c.albums[k].year);
        assert(as2[i].id == aid && as2[i].name == name && as2[i].year == year && as2[i].path
            == path);
        lemma_album_id_idx_some(as2, aid, i);
        lemma_album_idx_some(as2, name, year, i);
        let k = album_id_idx(as2, aid);
        assert(as2[k].id == as2[i].id);
        assert(k == i);
        assert forall|s: int| 0 <= s < c2.songs.len() implies album_id_idx(
            c2.albums,
            (#[trigger] c2.songs[s]).album_id,
        ) >= 0 by {
            lemma_album_id_idx_stable(c.albums, as2, c.songs[s].album_id);
        }
        assert(c2.wf());
        assert forall|n: Seq<char>, y: int| #[trigger] has_album(c, n, y) implies has_album(
            c2,
            n,
            y,
        ) by {
            lemma_album_idx(c.albums, n, y);
            lemma_album_idx_some(as2, n, y, album_idx(c.albums, n, y));
        }
        assert forall|id: int| #[trigger] album_id_idx(c.albums, id) >= 0 implies album_id_idx(
            as2,
            id,
        ) == album_id_idx(c.albums, id) by {
            lemma_album_id_idx_stable(c.albums, as2, id);
        }
    } else {
        // Miss: one fresh row is appended with the next id.
        let as2 = c.albums.push(AlbumV { id: c.next_album_id, name: name, year: year, path: path });
        assert(as2[c.albums.len() as int].id == c.next_album_id);
        lemma_album_id_idx_some(as2, c.next_album_id, c.albums.len() as int);
        lemma_album_id_idx(as2, c.next_album_id);
        let k = album_id_idx(as2, c.next_album_id);
        assert(as2[k].id == c.next_album_id);
        if k < c.albums.len() {
            assert(as2[k] == c.albums[k]);
            assert(false);
        }
        assert(as2[k] == AlbumV { id: aid, name: name, year: year, path: path });
        lemma_album_idx_some(as2, name, year, c.albums.len() as int);
        assert forall|a: int, b: int|
            #![trigger as2[a], as2[b]]
            0 <= a < as2.len() && 0 <= b < as2.len() && a != b implies !(as2[a].name
            == as2[b].name && as2[a].year == as2[b].year) && as2[a].id != as2[b].id by {
            if a < c.albums.len() && b < c.albums.len() {
            } else if a < c.albums.len() {
                assert(as2[b] == AlbumV { id: c.next_album_id, name: name, year: year, path: path });
                assert(as2[a] == c.albums[a]);
            } else {
                assert(as2[a] == AlbumV { id: c.next_album_id, name: name, year: year, path: path });
                assert(as2[b] == c.albums[b]);
            }
        }
        assert forall|s: int| 0 <= s < c2.songs.len() implies album_id_idx(
            c2.albums,
            (#[trigger] c2.songs[s]).album_id,
        ) >= 0 by {
            lemma_album_id_idx_stable(c.albums, as2, c.songs[s].album_id);
        }
        assert(c2.wf());
        assert forall|n: Seq<char>, y: int| #[trigger] has_album(c, n, y) implies has_album(
            c2,
            n,
            y,
        ) by {
            lemma_album_idx(c.albums, n, y);
            lemma_album_idx_some(as2, n, y, album_idx(c.albums, n, y));
        }
        assert forall|id: int| #[trigger] album_id_idx(c.albums, id) >= 0 implies album_id_idx(
            as2,
            id,
        ) == album_id_idx(c.albums, id) by {
            lemma_album_id_idx_stable(c.albums, as2, id);
        }
    }
}

/// Upserting a song preserves well-formedness, touches nothing but the song
/// table, keeps every existing row's id and identity key, at most appends one
/// row, leaves rows with other titles untouched, and leaves a row keyed
/// `(pid, aid, title)` holding exactly the record's non-key attributes.
pub proof fn lemma_upsert_song_props(c: CatalogV, pid: int, aid: int, r: RecordV)
    requires
        c.wf(),
        perf_id_idx(c.performers, pid) >= 0,
        album_id_idx(c.albums, aid) >= 0,
    ensures
        ({
            let c2 = spec_upsert_song(c, pid, aid, r);
            &&& c2.wf()
            &&& c2.performers == c.performers
            &&& c2.albums == c.albums
            &&& c2.next_performer_id == c.next_performer_id
            &&& c2.next_album_id == c.next_album_id
            &&& c.songs.len() <= c2.songs.len() <= c.songs.len() + 1
            &&& c.next_song_id <= c2.next_song_id <= c.next_song_id + 1
            &&& forall|i: int|
                0 <= i < c.songs.len() ==> (#[trigger] c2.songs[i]).id == c.songs[i].id
                    && c2.songs[i].performer_id == c.songs[i].performer_id
                    && c2.songs[i].album_id == c.songs[i].album_id && c2.songs[i].title
                    == c.songs[i].title
            &&& forall|i: int|
                0 <= i < c.songs.len() && (#[trigger] c.songs[i]).title != r.title
                    ==> c2.songs[i] == c.songs[i]
            &&& 0 <= song_idx(c2.songs, pid, aid, r.title) < c2.songs.len()
            &&& ({
                let s = c2.songs[song_idx(c2.songs, pid, aid, r.title)];
                s.performer_id == pid && s.album_id == aid && s.title == r.title && s.track
                    == r.track && s.year == r.year && s.genre == r.genre && s.path == r.path
            })
            &&& (has_song(c, pid, aid, r.title) ==> c2.songs.len() == c.songs.len()
                && c2.next_song_id == c.next_song_id && song_idx(c2.songs, pid, aid, r.title)
                == song_idx(c.songs, pid, aid, r.title) && forall|i: int|
                0 <= i < c.songs.len() && i != song_idx(c.songs, pid, aid, r.title)
                    ==> #[trigger] c2.songs[i] == c.songs[i])
            &&& (!has_song(c, pid, aid, r.title) ==> c2.songs.len() == c.songs.len() + 1
                && c2.next_song_id == c.next_song_id + 1 && c2.songs[c.songs.len() as int]
                == SongV {
                id: c.next_song_id,
                performer_id: pid,
                album_id: aid,
                path: r.path,
                title: r.title,
                track: r.track,
                year: r.year,
                genre: r.genre,
            })
        }),
{
    let c2 = spec_upsert_song(c, pid, aid, r);
    lemma_song_idx(c.songs, pid, aid, r.title);
    let i = song_idx(c.songs, pid, aid, r.title);
    if i >= 0 {
        let ss2 = c2.songs;
        assert(forall|k: int|
            0 <= k < c.songs.len() ==> (#[trigger] ss2[k]).id == c.songs[k].id
                && ss2[k].performer_id == c.songs[k].performer_id && ss2[k].album_id
                == c.songs[k].album_id && ss2[k].title == c.songs[k].title);
        lemma_song_idx_some(ss2, pid, aid, r.title, i);
        let k = song_idx(ss2, pid, aid, r.title);
        lemma_song_idx(ss2, pid, aid, r.title);
        assert(k == i) by {
            if k != i {
                assert(ss2[k].performer_id == c.songs[k].performer_id);
                assert(c.songs[k].performer_id == pid && c.songs[k].album_id == aid
                    && c.songs[k].title == r.title);
            }
        }
        assert(c2.wf());
    } else {
        let nsong = SongV {
            id: c.next_song_id,
            performer_id: pid,
            album_id: aid,
            path: r.path,
            title: r.title,
            track: r.track,
            year: r.year,
            genre: r.genre,
        };
        let ss2 = c.songs.push(nsong);
        assert(ss2[c.songs.len() as int] == nsong);
        lemma_song_idx_some(ss2, pid, aid, r.title, c.songs.len() as int);
        assert forall|a: int, b: int|
            #![trigger ss2[a], ss2[b]]
            0 <= a < ss2.len() && 0 <= b < ss2.len() && a != b implies !(ss2[a].performer_id
            == ss2[b].performer_id && ss2[a].album_id == ss2[b].album_id && ss2[a].title
            == ss2[b].title) && ss2[a].id != ss2[b].id by {
            if a < c.songs.len() && b < c.songs.len() {
            } else if a < c.songs.len() {
                assert(ss2[b] == nsong);
                assert(ss2[a] == c.songs[a]);
            } else {
                assert(ss2[a] == nsong);
                assert(ss2[b] == c.songs[b]);
            }
        }
        assert(c2.wf());
    }
}

/// Reconciling one record preserves well-formedness; existing performer rows
/// are untouched, existing album rows keep their id, name and year, existing
/// song rows keep their id and identity key, songs with other titles are
/// untouched, and each table grows by at most one row.
pub proof fn lemma_apply_props(c: CatalogV, r: RecordV)
    requires
        c.wf(),
    ensures
        ({
            let c2 = spec_apply(c, r);
            &&& c2.wf()
            &&& c.performers.len() <= c2.performers.len() <= c.performers.len() + 1
            &&& forall|i: int|
                0 <= i < c.performers.len() ==> #[trigger] c2.performers[i] == c.performers[i]
            &&& c.next_performer_id <= c2.next_performer_id <= c.next_performer_id + 1
            &&& c.albums.len() <= c2.albums.len() <= c.albums.len() + 1
            &&& forall|i: int|
                0 <= i < c.albums.len() ==> (#[trigger] c2.albums[i]).id == c.albums[i].id
                    && c2.albums[i].name == c.albums[i].name && c2.albums[i].year
                    == c.albums[i].year
            &&& c.next_album_id <= c2.next_album_id <= c.next_album_id + 1
            &&& c.songs.len() <= c2.songs.len() <= c.songs.len() + 1
            &&& forall|i: int|
                0 <= i < c.songs.len() ==> (#[trigger] c2.songs[i]).id == c.songs[i].id
                    && c2.songs[i].performer_id == c.songs[i].performer_id
                    && c2.songs[i].album_id == c.songs[i].album_id && c2.songs[i].title
                    == c.songs[i].title
            &&& forall|i: int|
                0 <= i < c.songs.len() && (#[trigger] c.songs[i]).title != r.title
                    ==> c2.songs[i] == c.songs[i]
            &&& c.next_song_id <= c2.next_song_id <= c.next_song_id + 1
            &&& has_performer(c2, r.artist)
            &&& has_album(c2, r.album, r.year)
            &&& forall|n: Seq<char>| #[trigger] has_performer(c, n) ==> has_performer(c2, n)
            &&& forall|n: Seq<char>, y: int| #[trigger] has_album(c, n, y) ==> has_album(c2, n, y)
            &&& (has_performer(c, r.artist) ==> c2.performers == c.performers
                && c2.next_performer_id == c.next_performer_id)
            &&& (has_album(c, r.album, r.year) ==> c2.albums.len() == c.albums.len()
                && c2.next_album_id == c.next_album_id)
            &&& (!has_performer(c, r.artist) ==> c2.performers == c.performers.push(
                PerformerV { id: c.next_performer_id, name: r.artist },
            ))
            &&& (c2.albums.len() == c.albums.len() + 1 ==> c2.albums[c.albums.len() as int].name
                == r.album && c2.albums[c.albums.len() as int].year == r.year)
        }),
{
    let (c1, pid) = spec_resolve_performer(c, r.artist);
    lemma_resolve_performer_props(c, r.artist);
    let (c2, aid) = spec_resolve_album(c1, r.album, r.year, r.album_path);
    lemma_resolve_album_props(c1, r.album, r.year, r.album_path);
    lemma_upsert_song_props(c2, pid, aid, r);
    let c3 = spec_upsert_song(c2, pid, aid, r);
    assert(perf_id_idx(c2.performers, pid) >= 0);
    assert forall|n: Seq<char>, y: int| #[trigger] has_album(c, n, y) implies has_album(
        c3,
        n,
        y,
    ) by {
        assert(c1.albums == c.albums);
        assert(has_album(c1, n, y));
        assert(has_album(c2, n, y));
        assert(c3.albums == c2.albums);
    }
    assert(has_album(c3, r.album, r.year)) by {
        assert(has_album(c2, r.album, r.year));
        assert(c3.albums == c2.albums);
    }
    assert(c1.albums == c.albums);
    assert(c3.performers == c1.performers);
    assert(c3.albums == c2.albums);
    assert(c3.albums.len() == c.albums.len() + 1 ==> c3.albums[c.albums.len() as int].name
        == r.album && c3.albums[c.albums.len() as int].year == r.year) by {
        if c3.albums.len() == c.albums.len() + 1 {
            assert(!has_album(c1, r.album, r.year));
            assert(c2.albums == c1.albums.push(
                AlbumV {
                    id: c1.next_album_id,
                    name: r.album,
                    year: r.year,
                    path: r.album_path,
                },
            ));
        }
    }
    assert(c3 == spec_apply(c, r));
}

/// Reconciling a whole crawl preserves well-formedness; existing performer
/// rows are untouched, existing album rows keep their id, name and year,
/// existing song rows keep their id and identity key, each table grows by at
/// most one row per record, and every record's artist ends up present.
pub proof fn lemma_apply_all_props(c: CatalogV, rs: Seq<RecordV>)
    requires
        c.wf(),
    ensures
        ({
            let c2 = spec_apply_all(c, rs);
            &&& c2.wf()
            &&& c.performers.len() <= c2.performers.len() <= c.performers.len() + rs.len()
            &&& forall|i: int|
                0 <= i < c.performers.len() ==> #[trigger] c2.performers[i] == c.performers[i]
            &&& c.next_performer_id <= c2.next_performer_id <= c.next_performer_id + rs.len()
            &&& c.albums.len() <= c2.albums.len() <= c.albums.len() + rs.len()
            &&& forall|i: int|
                0 <= i < c.albums.len() ==> (#[trigger] c2.albums[i]).id == c.albums[i].id
                    && c2.albums[i].name == c.albums[i].name && c2.albums[i].year
                    == c.albums[i].year
            &&& c.next_album_id <= c2.next_album_id <= c.next_album_id + rs.len()
            &&& c.songs.len() <= c2.songs.len() <= c.songs.len() + rs.len()
            &&& forall|i: int|
                0 <= i < c.songs.len() ==> (#[trigger] c2.songs[i]).id == c.songs[i].id
                    && c2.songs[i].performer_id == c.songs[i].performer_id
                    && c2.songs[i].album_id == c.songs[i].album_id && c2.songs[i].title
                    == c.songs[i].title
            &&& c.next_song_id <= c2.next_song_id <= c.next_song_id + rs.len()
            &&& forall|n: Seq<char>| #[trigger] has_performer(c, n) ==> has_performer(c2, n)
            &&& forall|n: Seq<char>, y: int| #[trigger] has_album(c, n, y) ==> has_album(c2, n, y)
            &&& forall|k: int|
                0 <= k < rs.len() ==> has_performer(c2, (#[trigger] rs[k]).artist)
            &&& forall|k: int|
                0 <= k < rs.len() ==> has_album(c2, (#[trigger] rs[k]).album, rs[k].year)
        }),
    decreases rs.len(),
{
    if rs.len() > 0 {
        lemma_apply_all_props(c, rs.drop_last());
        let c1 = spec_apply_all(c, rs.drop_last());
        lemma_apply_props(c1, rs.last());
        let c2 = spec_apply(c1, rs.last());
        assert forall|k: int| 0 <= k < rs.len() implies has_performer(
            c2,
            (#[trigger] rs[k]).artist,
        ) by {
            if k < rs.len() - 1 {
                assert(rs.drop_last()[k] == rs[k]);
                assert(has_performer(c1, rs[k].artist));
            } else {
                assert(rs[k] == rs.last());
            }
        }
        assert forall|k: int| 0 <= k < rs.len() implies has_album(
            c2,
            (#[trigger] rs[k]).album,
            rs[k].year,
        ) by {
            if k < rs.len() - 1 {
                assert(rs.drop_last()[k] == rs[k]);
                assert(has_album(c1, rs[k].album, rs[k].year));
            } else {
                assert(rs[k] == rs.last());
            }
        }
    }
}

/// If every record's artist is already present, reconciling the crawl leaves
/// the performer table exactly as it was.
pub proof fn lemma_apply_all_performers_stable(c: CatalogV, rs: Seq<RecordV>)
    requires
        c.wf(),
        forall|k: int| 0 <= k < rs.len() ==> has_performer(c, (#[trigger] rs[k]).artist),
    ensures
        spec_apply_all(c, rs).performers == c.performers,
        spec_apply_all(c, rs).next_performer_id == c.next_performer_id,
    decreases rs.len(),
{
    if rs.len() > 0 {
        assert(forall|k: int|
            0 <= k < rs.drop_last().len() ==> #[trigger] rs.drop_last()[k] == rs[k]);
        lemma_apply_all_performers_stable(c, rs.drop_last());
        let c1 = spec_apply_all(c, rs.drop_last());
        lemma_apply_all_props(c, rs.drop_last());
        assert(has_performer(c, rs.last().artist));
        assert(has_performer(c1, rs.last().artist));
        lemma_apply_props(c1, rs.last());
    }
}

// ---------------------------------------------------------------------------
// The cleanup pass.
// ---------------------------------------------------------------------------

/// What survives the cleanup: every kept row's title appears in the crawl,
/// every row whose title appears in the crawl is kept, kept rows come from
/// the original table, and their relative order is an order of the original.
pub proof fn lemma_kept_songs(songs: Seq<SongV>, rs: Seq<RecordV>)
    ensures
        kept_songs(songs, rs).len() <= songs.len(),
        forall|i: int|
            0 <= i < kept_songs(songs, rs).len() ==> title_in(
                rs,
                (#[trigger] kept_songs(songs, rs)[i]).title,
            ),
        forall|i: int|
            0 <= i < kept_songs(songs, rs).len() ==> songs.contains(
                #[trigger] kept_songs(songs, rs)[i],
            ),
        forall|i: int|
            0 <= i < songs.len() && title_in(rs, (#[trigger] songs[i]).title) ==> kept_songs(
                songs,
                rs,
            ).contains(songs[i]),
    decreases songs.len(),
{
    if songs.len() > 0 {
        lemma_kept_songs(songs.drop_last(), rs);
        let kept = kept_songs(songs, rs);
        let rest = kept_songs(songs.drop_last(), rs);
        assert forall|i: int|
            0 <= i < kept.len() implies songs.contains(#[trigger] kept[i]) && title_in(
            rs,
            kept[i].title,
        ) by {
            if i < rest.len() {
                assert(kept[i] == rest[i]);
                assert(songs.drop_last().contains(rest[i]));
                let w = choose|w: int|
                    0 <= w < songs.drop_last().len() && songs.drop_last()[w] == rest[i];
                assert(songs[w] == rest[i]);
            } else {
                assert(kept[i] == songs.last());
            }
        }
        assert forall|i: int|
            0 <= i < songs.len() && title_in(rs, (#[trigger] songs[i]).title) implies kept.contains(
            songs[i],
        ) by {
            if i < songs.len() - 1 {
                assert(songs.drop_last()[i] == songs[i]);
                assert(rest.contains(songs[i]));
                let w = choose|w: int| 0 <= w < rest.len() && rest[w] == songs[i];
                if title_in(rs, songs.last().title) {
                    assert(kept[w] == rest[w]);
                } else {
                    assert(kept == rest);
                }
            } else {
                assert(songs[i] == songs.last());
                assert(kept[kept.len() - 1] == songs.last());
            }
        }
    }
}

/// Cleanup preserves well-formedness: the kept rows are a subset of a table
/// whose keys and ids were already pairwise distinct, and the parent tables
/// are untouched.
pub proof fn lemma_cleanup_wf(c: CatalogV, rs: Seq<RecordV>)
    requires
        c.wf(),
    ensures
        spec_cleanup(c, rs).wf(),
        spec_cleanup(c, rs).performers == c.performers,
        spec_cleanup(c, rs).albums == c.albums,
        spec_cleanup(c, rs).next_performer_id == c.next_performer_id,
        spec_cleanup(c, rs).next_album_id == c.next_album_id,
        spec_cleanup(c, rs).next_song_id == c.next_song_id,
    decreases c.songs.len(),
{
    let kept = kept_songs(c.songs, rs);
    lemma_kept_songs(c.songs, rs);
    lemma_kept_songs_distinct(c.songs, rs);
    let c2 = spec_cleanup(c, rs);
    assert forall|i: int| 0 <= i < c2.songs.len() implies 1 <= (#[trigger] c2.songs[i]).id
        < c2.next_song_id && perf_id_idx(c2.performers, c2.songs[i].performer_id) >= 0
        && album_id_idx(c2.albums, c2.songs[i].album_id) >= 0 by {
        assert(c.songs.contains(c2.songs[i]));
        let w = choose|w: int| 0 <= w < c.songs.len() && c.songs[w] == c2.songs[i];
        assert(1 <= c.songs[w].id < c.next_song_id);
        assert(perf_id_idx(c.performers, c.songs[w].performer_id) >= 0);
        assert(album_id_idx(c.albums, c.songs[w].album_id) >= 0);
    }
}

/// In a table with pairwise-distinct ids, the kept rows keep pairwise
/// distinct keys and ids.
pub proof fn lemma_kept_songs_distinct(songs: Seq<SongV>, rs: Seq<RecordV>)
    requires
        forall|i: int, j: int|
            #![trigger songs[i], songs[j]]
            0 <= i < songs.len() && 0 <= j < songs.len() && i != j ==> !(songs[i].performer_id
                == songs[j].performer_id && songs[i].album_id == songs[j].album_id
                && songs[i].title == songs[j].title) && songs[i].id != songs[j].id,
    ensures
        ({
            let kept = kept_songs(songs, rs);
            forall|i: int, j: int|
                #![trigger kept[i], kept[j]]
                0 <= i < kept.len() && 0 <= j < kept.len() && i != j ==> !(kept[i].performer_id
                    == kept[j].performer_id && kept[i].album_id == kept[j].album_id
                    && kept[i].title == kept[j].title) && kept[i].id != kept[j].id
        }),
    decreases songs.len(),
{
    if songs.len() > 0 {
        let kept = kept_songs(songs, rs);
        let rest = kept_songs(songs.drop_last(), rs);
        assert(forall|i: int, j: int|
            #![trigger songs.drop_last()[i], songs.drop_last()[j]]
            0 <= i < songs.drop_last().len() && 0 <= j < songs.drop_last().len() && i != j
                ==> !(songs.drop_last()[i].performer_id
                == songs.drop_last()[j].performer_id && songs.drop_last()[i].album_id
                == songs.drop_last()[j].album_id && songs.drop_last()[i].title
                == songs.drop_last()[j].title) && songs.drop_last()[i].id
                != songs.drop_last()[j].id);
        lemma_kept_songs_distinct(songs.drop_last(), rs);
        lemma_kept_songs(songs.drop_last(), rs);
        if title_in(rs, songs.last().title) {
            assert forall|i: int, j: int|
                #![trigger kept[i], kept[j]]
                0 <= i < kept.len() && 0 <= j < kept.len() && i != j implies !(kept[i].performer_id
                == kept[j].performer_id && kept[i].album_id == kept[j].album_id && kept[i].title
                == kept[j].title) && kept[i].id != kept[j].id by {
                if i < rest.len() && j < rest.len() {
                    assert(kept[i] == rest[i] && kept[j] == rest[j]);
                } else if i < rest.len() {
                    assert(kept[i] == rest[i] && kept[j] == songs.last());
                    assert(songs.drop_last().contains(rest[i]));
                    let w = choose|w: int|
                        0 <= w < songs.drop_last().len() && songs.drop_last()[w] == rest[i];
                    assert(songs[w] == rest[i]);
                    assert(songs[songs.len() - 1] == songs.last());
                } else {
                    assert(kept[j] == rest[j] && kept[i] == songs.last());
                    assert(songs.drop_last().contains(rest[j]));
                    let w = choose|w: int|
                        0 <= w < songs.drop_last().len() && songs.drop_last()[w] == rest[j];
                    assert(songs[w] == rest[j]);
                    assert(songs[songs.len() - 1] == songs.last());
                }
            }
        }
    }
}

/// One full synchronization pass preserves well-formedness; performers are
/// never deleted, albums keep their id, name and year, and every surviving
/// song's title appears in the crawl.
pub proof fn lemma_sync_props(c: CatalogV, rs: Seq<RecordV>)
    requires
        c.wf(),
    ensures
        ({
            let c2 = spec_sync(c, rs);
            &&& c2.wf()
            &&& c.performers.len() <= c2.performers.len() <= c.performers.len() + rs.len()
            &&& forall|i: int|
                0 <= i < c.performers.len() ==> #[trigger] c2.performers[i] == c.performers[i]
            &&& c.albums.len() <= c2.albums.len() <= c.albums.len() + rs.len()
            &&& forall|i: int|
                0 <= i < c.albums.len() ==> (#[trigger] c2.albums[i]).id == c.albums[i].id
                    && c2.albums[i].name == c.albums[i].name && c2.albums[i].year
                    == c.albums[i].year
            &&& forall|i: int|
                0 <= i < c2.songs.len() ==> title_in(rs, (#[trigger] c2.songs[i]).title)
            &&& forall|k: int|
                0 <= k < rs.len() ==> has_performer(c2, (#[trigger] rs[k]).artist)
        }),
{
    lemma_apply_all_props(c, rs);
    let c1 = spec_apply_all(c, rs);
    lemma_cleanup_wf(c1, rs);
    lemma_kept_songs(c1.songs, rs);
}

/// If every record's album identity is already present, reconciling the
/// crawl adds no album row and moves no album's id, name or year.
pub proof fn lemma_apply_all_albums_stable(c: CatalogV, rs: Seq<RecordV>)
    requires
        c.wf(),
        forall|k: int| 0 <= k < rs.len() ==> has_album(c, (#[trigger] rs[k]).album, rs[k].year),
    ensures
        spec_apply_all(c, rs).albums.len() == c.albums.len(),
        forall|i: int|
            0 <= i < c.albums.len() ==> (#[trigger] spec_apply_all(c, rs).albums[i]).id
                == c.albums[i].id && spec_apply_all(c, rs).albums[i].name == c.albums[i].name
                && spec_apply_all(c, rs).albums[i].year == c.albums[i].year,
        spec_apply_all(c, rs).next_album_id == c.next_album_id,
    decreases rs.len(),
{
    if rs.len() > 0 {
        assert(forall|k: int|
            0 <= k < rs.drop_last().len() ==> #[trigger] rs.drop_last()[k] == rs[k]);
        lemma_apply_all_albums_stable(c, rs.drop_last());
        lemma_apply_all_props(c, rs.drop_last());
        let c1 = spec_apply_all(c, rs.drop_last());
        let last = rs.last();
        assert(has_album(c, last.album, last.year));
        lemma_album_idx(c.albums, last.album, last.year);
        let j = album_idx(c.albums, last.album, last.year);
        lemma_album_idx_some(c1.albums, last.album, last.year, j);
        lemma_apply_props(c1, last);
    }
}

// ---------------------------------------------------------------------------
// Resolved identities and their stability.
// ---------------------------------------------------------------------------

/// The id of the performer row named `n`; meaningful when one exists.
pub open spec fn performer_id_by_name(c: CatalogV, n: Seq<char>) -> int {
    c.performers[perf_idx(c.performers, n)].id
}

/// The id of the album row keyed `(n, y)`; meaningful when one exists.
pub open spec fn album_id_by_key(c: CatalogV, n: Seq<char>, y: int) -> int {
    c.albums[album_idx(c.albums, n, y)].id
}

/// A record's whole identity is present in the catalog: its performer by
/// name, its album by `(name, year)`, and its song under their ids.
pub open spec fn record_key_present(c: CatalogV, r: RecordV) -> bool {
    &&& has_performer(c, r.artist)
    &&& has_album(c, r.album, r.year)
    &&& has_song(
        c,
        performer_id_by_name(c, r.artist),
        album_id_by_key(c, r.album, r.year),
        r.title,
    )
}

/// Reconciling any record moves no resolved performer id: a name present
/// before still resolves, to the same id.
pub proof fn lemma_performer_id_by_name_stable(c: CatalogV, r2: RecordV, n: Seq<char>)
    requires
        c.wf(),
        has_performer(c, n),
    ensures
        has_performer(spec_apply(c, r2), n),
        performer_id_by_name(spec_apply(c, r2), n) == performer_id_by_name(c, n),
{
    lemma_apply_props(c, r2);
    let c3 = spec_apply(c, r2);
    lemma_perf_idx(c.performers, n);
    let j1 = perf_idx(c.performers, n);
    lemma_perf_idx(c3.performers, n);
    let j2 = perf_idx(c3.performers, n);
    if j2 < c.performers.len() {
        assert(c3.performers[j2] == c.performers[j2]);
        assert(c.performers[j2].name == n && c.performers[j1].name == n);
        assert(j1 == j2);
    } else {
        // only an absent name is ever appended
        assert(c3.performers.len() == c.performers.len() + 1);
        assert(!has_performer(c, r2.artist));
        assert(c3.performers == c.performers.push(
            PerformerV { id: c.next_performer_id, name: r2.artist },
        ));
        assert(c3.performers[j2].name == r2.artist);
        assert(false);
    }
}

/// Reconciling any record moves no resolved album id: a `(name, year)` key
/// present before still resolves, to the same id.
pub proof fn lemma_album_id_by_key_stable(c: CatalogV, r2: RecordV, n: Seq<char>, y: int)
    requires
        c.wf(),
        has_album(c, n, y),
    ensures
        has_album(spec_apply(c, r2), n, y),
        album_id_by_key(spec_apply(c, r2), n, y) == album_id_by_key(c, n, y),
{
    lemma_apply_props(c, r2);
    let c3 = spec_apply(c, r2);
    lemma_album_idx(c.albums, n, y);
    let j1 = album_idx(c.albums, n, y);
    lemma_album_idx(c3.albums, n, y);
    let j2 = album_idx(c3.albums, n, y);
    if j2 < c.albums.len() {
        assert(c3.albums[j2].name == c.albums[j2].name && c3.albums[j2].year == c.albums[j2].year
            && c3.albums[j2].id == c.albums[j2].id);
        assert(c.albums[j2].name == n && c.albums[j2].year == y);
        assert(j1 == j2);
    } else {
        // only an absent key is ever appended
        assert(c3.albums.len() == c.albums.len() + 1);
        assert(c3.albums[j2].name == r2.album && c3.albums[j2].year == r2.year);
        assert(n == r2.album && y == r2.year);
        assert(has_album(c, r2.album, r2.year));
        assert(c3.albums.len() == c.albums.len());
        assert(false);
    }
}

/// Reconciling any record keeps every record identity that was already
/// present, resolved to the same ids.
pub proof fn lemma_record_key_present_preserved(c: CatalogV, r2: RecordV, r: RecordV)
    requires
        c.wf(),
        record_key_present(c, r),
    ensures
        spec_apply(c, r2).wf(),
        record_key_present(spec_apply(c, r2), r),
        performer_id_by_name(spec_apply(c, r2), r.artist) == performer_id_by_name(c, r.artist),
        album_id_by_key(spec_apply(c, r2), r.album, r.year) == album_id_by_key(
            c,
            r.album,
            r.year,
        ),
{
    lemma_apply_props(c, r2);
    lemma_performer_id_by_name_stable(c, r2, r.artist);
    lemma_album_id_by_key_stable(c, r2, r.album, r.year);
    let pid = performer_id_by_name(c, r.artist);
    let aid = album_id_by_key(c, r.album, r.year);
    lemma_song_idx(c.songs, pid, aid, r.title);
    let w = song_idx(c.songs, pid, aid, r.title);
    lemma_song_idx_some(spec_apply(c, r2).songs, pid, aid, r.title, w);
}

/// Reconciling a record establishes its whole identity: afterwards the
/// performer, the album and the song are present under the resolved ids.
pub proof fn lemma_record_key_established(c: CatalogV, r: RecordV)
    requires
        c.wf(),
    ensures
        spec_apply(c, r).wf(),
        record_key_present(spec_apply(c, r), r),
{
    let (c1, pid) = spec_resolve_performer(c, r.artist);
    lemma_resolve_performer_props(c, r.artist);
    let (c2, aid) = spec_resolve_album(c1, r.album, r.year, r.album_path);
    lemma_resolve_album_props(c1, r.album, r.year, r.album_path);
    lemma_upsert_song_props(c2, pid, aid, r);
    let c3 = spec_upsert_song(c2, pid, aid, r);
    assert(c3 == spec_apply(c, r));
    assert(c3.performers == c1.performers);
    assert(c3.albums == c2.albums);
    assert(c3.wf());
    // the name resolves to pid: the row found by name and the row carrying
    // pid both bear the name, and names are unique
    lemma_perf_idx(c1.performers, r.artist);
    let j = perf_idx(c1.performers, r.artist);
    let m = perf_id_idx(c1.performers, pid);
    assert(c1.performers[m].name == r.artist && c1.performers[m].id == pid);
    assert(c1.performers[j].name == r.artist);
    assert(j == m);
    assert(performer_id_by_name(c3, r.artist) == pid);
    // the key resolves to aid, by uniqueness of album keys
    lemma_album_idx(c2.albums, r.album, r.year);
    let ja = album_idx(c2.albums, r.album, r.year);
    let ma = album_id_idx(c2.albums, aid);
    assert(c2.albums[ma] == AlbumV { id: aid, name: r.album, year: r.year, path: r.album_path });
    assert(c2.albums[ja].name == r.album && c2.albums[ja].year == r.year);
    assert(ja == ma);
    assert(album_id_by_key(c3, r.album, r.year) == aid);
    assert(has_song(c3, pid, aid, r.title));
}

/// Reconciling a record whose whole identity is already present inserts
/// nothing anywhere: table sizes and next ids are all unchanged.
pub proof fn lemma_apply_when_present(c: CatalogV, r: RecordV)
    requires
        c.wf(),
        record_key_present(c, r),
    ensures
        spec_apply(c, r).wf(),
        spec_apply(c, r).performers == c.performers,
        spec_apply(c, r).next_performer_id == c.next_performer_id,
        spec_apply(c, r).albums.len() == c.albums.len(),
        spec_apply(c, r).next_album_id == c.next_album_id,
        spec_apply(c, r).songs.len() == c.songs.len(),
        spec_apply(c, r).next_song_id == c.next_song_id,
{
    lemma_apply_props(c, r);
    let (c1, pid) = spec_resolve_performer(c, r.artist);
    lemma_resolve_performer_props(c, r.artist);
    assert(c1 == c);
    let (c2, aid) = spec_resolve_album(c1, r.album, r.year, r.album_path);
    lemma_resolve_album_props(c1, r.album, r.year, r.album_path);
    lemma_upsert_song_props(c2, pid, aid, r);
    let c3 = spec_upsert_song(c2, pid, aid, r);
    assert(c3 == spec_apply(c, r));
    // the resolved ids are exactly the ones the present key uses
    lemma_perf_idx(c.performers, r.artist);
    assert(pid == performer_id_by_name(c, r.artist));
    lemma_album_idx(c.albums, r.album, r.year);
    assert(aid == album_id_by_key(c, r.album, r.year));
    assert(c2.songs == c.songs);
    assert(has_song(c2, pid, aid, r.title));
}

/// Reconciling a whole crawl whose record identities are all present
/// inserts nothing anywhere, and keeps every present identity resolved to
/// the same ids.
pub proof fn lemma_apply_all_when_present(c: CatalogV, rs: Seq<RecordV>)
    requires
        c.wf(),
        forall|k: int| 0 <= k < rs.len() ==> record_key_present(c, #[trigger] rs[k]),
    ensures
        spec_apply_all(c, rs).wf(),
        spec_apply_all(c, rs).performers == c.performers,
        spec_apply_all(c, rs).next_performer_id == c.next_performer_id,
        spec_apply_all(c, rs).albums.len() == c.albums.len(),
        spec_apply_all(c, rs).next_album_id == c.next_album_id,
        spec_apply_all(c, rs).songs.len() == c.songs.len(),
        spec_apply_all(c, rs).next_song_id == c.next_song_id,
        forall|r: RecordV|
            #[trigger] record_key_present(c, r) ==> record_key_present(spec_apply_all(c, rs), r),
    decreases rs.len(),
{
    if rs.len() > 0 {
        assert(forall|k: int|
            0 <= k < rs.drop_last().len() ==> #[trigger] rs.drop_last()[k] == rs[k]);
        lemma_apply_all_when_present(c, rs.drop_last());
        let c1 = spec_apply_all(c, rs.drop_last());
        let last = rs.last();
        assert(record_key_present(c, last));
        assert(record_key_present(c1, last));
        lemma_apply_when_present(c1, last);
        assert forall|r: RecordV| #[trigger] record_key_present(c, r) implies record_key_present(
            spec_apply_all(c, rs),
            r,
        ) by {
            assert(record_key_present(c1, r));
            lemma_record_key_present_preserved(c1, last, r);
        }
    }
}

/// Every record identity of the crawl is present after the crawl has been
/// reconciled.
pub proof fn lemma_apply_all_keys_present(c: CatalogV, rs: Seq<RecordV>)
    requires
        c.wf(),
    ensures
        spec_apply_all(c, rs).wf(),
        forall|k: int|
            0 <= k < rs.len() ==> record_key_present(spec_apply_all(c, rs), #[trigger] rs[k]),
    decreases rs.len(),
{
    lemma_apply_all_props(c, rs);
    if rs.len() > 0 {
        assert(forall|k: int|
            0 <= k < rs.drop_last().len() ==> #[trigger] rs.drop_last()[k] == rs[k]);
        lemma_apply_all_keys_present(c, rs.drop_last());
        let c1 = spec_apply_all(c, rs.drop_last());
        let last = rs.last();
        lemma_record_key_established(c1, last);
        assert forall|k: int| 0 <= k < rs.len() implies record_key_present(
            spec_apply_all(c, rs),
            #[trigger] rs[k],
        ) by {
            if k < rs.len() - 1 {
                assert(rs.drop_last()[k] == rs[k]);
                assert(record_key_present(c1, rs[k]));
                lemma_record_key_present_preserved(c1, last, rs[k]);
            } else {
                assert(rs[k] == last);
            }
        }
    }
}

/// When every song's title appears in the crawl, the cleanup keeps the
/// whole table as it stands.
pub proof fn lemma_kept_songs_all(songs: Seq<SongV>, rs: Seq<RecordV>)
    requires
        forall|i: int| 0 <= i < songs.len() ==> title_in(rs, (#[trigger] songs[i]).title),
    ensures
        kept_songs(songs, rs) == songs,
    decreases songs.len(),
{
    if songs.len() > 0 {
        assert(forall|i: int|
            0 <= i < songs.drop_last().len() ==> #[trigger] songs.drop_last()[i] == songs[i]);
        lemma_kept_songs_all(songs.drop_last(), rs);
        assert(title_in(rs, songs.last().title));
        assert(kept_songs(songs, rs) =~= songs);
    }
}

} // verus!
