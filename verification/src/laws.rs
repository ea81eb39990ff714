//! The laws of the synchronization engine, proved over the model in
//! [`crate::model`]. The executable operations in [`crate::catalog`] are
//! specified as equal to `spec_sync` and its parts, so each law carries
//! over to them.

use vstd::prelude::*;

use crate::query::{
    album_name_or_unknown, performer_name_or_unknown, spec_get_song_details, spec_song_details,
    SongDetailsV,
};
use crate::model::{
    album_id_by_key, album_id_idx, empty_catalog, has_album, has_performer, has_song,
    kept_songs, lemma_album_id_idx, lemma_album_id_idx_stable, lemma_apply_all_albums_stable,
    lemma_apply_all_keys_present, lemma_apply_all_performers_stable, lemma_apply_all_props,
    lemma_apply_all_when_present, lemma_apply_props, lemma_cleanup_wf, lemma_kept_songs,
    lemma_kept_songs_all, lemma_kept_songs_distinct, lemma_perf_id_idx,
    lemma_perf_id_idx_stable, lemma_resolve_album_props, lemma_resolve_performer_props,
    lemma_song_idx, lemma_song_idx_some, lemma_song_title_idx, lemma_song_title_idx_at,
    lemma_sync_props, lemma_upsert_song_props, perf_id_idx, performer_id_by_name,
    record_key_present, song_idx, song_title_idx, spec_apply, spec_apply_all, spec_cleanup,
    spec_resolve_album, spec_resolve_performer, spec_sync, spec_upsert_song, title_in, CatalogV,
    RecordV,
};

verus! {

// ---------------------------------------------------------------------------
// Idempotence of performer rows.
// ---------------------------------------------------------------------------

/// Law: a second synchronization over the same unchanged crawl leaves the
/// performer table exactly as the first pass left it — in particular, for
/// any performer name, no second row with that name is ever created — and
/// after any pass no two performer rows share a name.
pub proof fn lemma_resync_performers_unchanged(c: CatalogV, rs: Seq<RecordV>)
    requires
        c.wf(),
    ensures
        spec_sync(spec_sync(c, rs), rs).performers == spec_sync(c, rs).performers,
        forall|i: int, j: int|
            #![trigger spec_sync(c, rs).performers[i], spec_sync(c, rs).performers[j]]
            0 <= i < spec_sync(c, rs).performers.len() && 0 <= j < spec_sync(
                c,
                rs,
            ).performers.len() && i != j ==> spec_sync(c, rs).performers[i].name != spec_sync(
                c,
                rs,
            ).performers[j].name,
{
    lemma_sync_props(c, rs);
    let c1 = spec_sync(c, rs);
    lemma_apply_all_performers_stable(c1, rs);
    lemma_apply_all_props(c1, rs);
    lemma_cleanup_wf(spec_apply_all(c1, rs), rs);
}

// ---------------------------------------------------------------------------
// Cleanup correctness and orphaned parents.
// ---------------------------------------------------------------------------

/// Law: when a title no longer appears anywhere in the crawl — a file
/// removed between two runs — no song row carries it after the pass, while
/// the performer rows, and every album's id, name and year, remain.
pub proof fn lemma_sync_removes_vanished_title(c: CatalogV, rs: Seq<RecordV>, t: Seq<char>)
    requires
        c.wf(),
        !title_in(rs, t),
    ensures
        forall|i: int|
            0 <= i < spec_sync(c, rs).songs.len() ==> (#[trigger] spec_sync(
                c,
                rs,
            ).songs[i]).title != t,
        spec_sync(c, rs).performers.len() >= c.performers.len(),
        forall|i: int|
            0 <= i < c.performers.len() ==> #[trigger] spec_sync(c, rs).performers[i]
                == c.performers[i],
        spec_sync(c, rs).albums.len() >= c.albums.len(),
        forall|i: int|
            0 <= i < c.albums.len() ==> (#[trigger] spec_sync(c, rs).albums[i]).id
                == c.albums[i].id && spec_sync(c, rs).albums[i].name == c.albums[i].name
                && spec_sync(c, rs).albums[i].year == c.albums[i].year,
{
    lemma_sync_props(c, rs);
}

// ---------------------------------------------------------------------------
// Update in place, without duplication.
// ---------------------------------------------------------------------------

/// Law: when a record's whole identity — performer name, album `(name,
/// year)` key, and song title under their ids — is already present,
/// reconciling the record leaves the song table's size unchanged (no
/// duplicate row) and the identified row holds the record's track, year,
/// genre and path afterwards.
pub proof fn lemma_update_in_place(c: CatalogV, r: RecordV)
    requires
        c.wf(),
        has_performer(c, r.artist),
        has_album(c, r.album, r.year),
        has_song(
            c,
            spec_resolve_performer(c, r.artist).1,
            spec_resolve_album(c, r.album, r.year, r.album_path).1,
            r.title,
        ),
    ensures
        spec_apply(c, r).songs.len() == c.songs.len(),
        ({
            let pid = spec_resolve_performer(c, r.artist).1;
            let aid = spec_resolve_album(c, r.album, r.year, r.album_path).1;
            let c2 = spec_apply(c, r);
            let i = song_idx(c2.songs, pid, aid, r.title);
            &&& 0 <= i < c2.songs.len()
            &&& c2.songs[i].track == r.track
            &&& c2.songs[i].year == r.year
            &&& c2.songs[i].genre == r.genre
            &&& c2.songs[i].path == r.path
            &&& c2.songs[i].title == r.title
        }),
{
    let (c1, pid) = spec_resolve_performer(c, r.artist);
    lemma_resolve_performer_props(c, r.artist);
    assert(c1 == c);
    let (c2, aid) = spec_resolve_album(c1, r.album, r.year, r.album_path);
    lemma_resolve_album_props(c1, r.album, r.year, r.album_path);
    assert(c2.songs == c.songs);
    assert(spec_resolve_album(c, r.album, r.year, r.album_path).1 == aid);
    lemma_upsert_song_props(c2, pid, aid, r);
}

// ---------------------------------------------------------------------------
// The round trip: a title unique in the crawl comes back exactly.
// ---------------------------------------------------------------------------

/// The detail row that a record should produce: its own fields, with the
/// performer and album names it carried.
pub open spec fn details_of_record(r: RecordV) -> SongDetailsV {
    SongDetailsV {
        title: r.title,
        artist: r.artist,
        album: r.album,
        path: r.path,
        track_number: r.track,
        year: r.year,
        genre: r.genre,
    }
}

/// Exactly one song row carries title `t`, and its joined detail is `d`.
pub open spec fn sole_title_row(c: CatalogV, t: Seq<char>, d: SongDetailsV) -> bool {
    &&& 0 <= song_title_idx(c.songs, t) < c.songs.len()
    &&& forall|i: int|
        0 <= i < c.songs.len() && (#[trigger] c.songs[i]).title == t ==> i == song_title_idx(
            c.songs,
            t,
        )
    &&& spec_song_details(c, c.songs[song_title_idx(c.songs, t)]) == d
}

/// Reconciling records one by one composes: the whole crawl equals the
/// first `m` records followed by the rest.
pub proof fn lemma_apply_all_split(c: CatalogV, rs: Seq<RecordV>, m: int)
    requires
        0 <= m <= rs.len(),
    ensures
        spec_apply_all(c, rs) == spec_apply_all(spec_apply_all(c, rs.take(m)), rs.skip(m)),
    decreases rs.len(),
{
    if m == rs.len() {
        assert(rs.take(m) =~= rs);
        assert(rs.skip(m).len() == 0);
    } else {
        lemma_apply_all_split(c, rs.drop_last(), m);
        assert(rs.drop_last().take(m) =~= rs.take(m));
        assert(rs.skip(m).len() > 0);
        assert(rs.skip(m).drop_last() =~= rs.drop_last().skip(m));
        assert(rs.skip(m).last() == rs.last());
        let c1 = spec_apply_all(c, rs.take(m));
        assert(spec_apply_all(c1, rs.skip(m)) == spec_apply(
            spec_apply_all(c1, rs.drop_last().skip(m)),
            rs.last(),
        ));
    }
}

/// Reconciling a record whose title is not `t`, into a catalog with no row
/// titled `t`, still leaves no row titled `t`.
proof fn lemma_apply_no_title(c: CatalogV, r: RecordV, t: Seq<char>)
    requires
        c.wf(),
        r.title != t,
        song_title_idx(c.songs, t) == -1,
    ensures
        spec_apply(c, r).wf(),
        song_title_idx(spec_apply(c, r).songs, t) == -1,
{
    lemma_apply_props(c, r);
    let c2 = spec_apply(c, r);
    lemma_song_title_idx(c.songs, t);
    lemma_song_title_idx(c2.songs, t);
    let f = song_title_idx(c2.songs, t);
    if f >= 0 {
        assert(c2.songs[f].title == t);
        if f < c.songs.len() {
            assert(c2.songs[f].title == c.songs[f].title);
        } else {
            // only one row can have been appended, and it carries r.title
            assert(c2.songs.len() == c.songs.len() + 1);
            assert(f == c.songs.len());
            lemma_apply_appended_title(c, r);
        }
    }
}

/// When reconciling a record appends a song row, the new row carries the
/// record's title.
proof fn lemma_apply_appended_title(c: CatalogV, r: RecordV)
    requires
        c.wf(),
        spec_apply(c, r).songs.len() == c.songs.len() + 1,
    ensures
        spec_apply(c, r).songs[c.songs.len() as int].title == r.title,
{
    let (c1, pid) = spec_resolve_performer(c, r.artist);
    lemma_resolve_performer_props(c, r.artist);
    let (c2, aid) = spec_resolve_album(c1, r.album, r.year, r.album_path);
    lemma_resolve_album_props(c1, r.album, r.year, r.album_path);
    lemma_upsert_song_props(c2, pid, aid, r);
}

/// Reconciling a record into a catalog with no row of its title creates
/// exactly one row of that title, holding the record's fields and joined
/// to its performer and album names.
proof fn lemma_apply_creates_sole_row(c: CatalogV, r: RecordV)
    requires
        c.wf(),
        song_title_idx(c.songs, r.title) == -1,
    ensures
        spec_apply(c, r).wf(),
        sole_title_row(spec_apply(c, r), r.title, details_of_record(r)),
{
    let t = r.title;
    lemma_apply_props(c, r);
    let (c1, pid) = spec_resolve_performer(c, r.artist);
    lemma_resolve_performer_props(c, r.artist);
    let (c2, aid) = spec_resolve_album(c1, r.album, r.year, r.album_path);
    lemma_resolve_album_props(c1, r.album, r.year, r.album_path);
    lemma_upsert_song_props(c2, pid, aid, r);
    let c3 = spec_upsert_song(c2, pid, aid, r);
    assert(c3 == spec_apply(c, r));
    assert(c2.songs == c.songs);
    // no row of this title means no row of this key, so a row is appended
    lemma_song_title_idx(c.songs, t);
    lemma_song_idx(c2.songs, pid, aid, t);
    let sk = song_idx(c2.songs, pid, aid, t);
    if sk >= 0 {
        assert(c2.songs[sk].title == t);
        assert(c.songs[sk].title != t);
    }
    assert(c3.songs.len() == c.songs.len() + 1);
    let n = c.songs.len() as int;
    let newrow = c3.songs[n];
    // the appended row is the first and only row of this title
    assert forall|j: int| 0 <= j < n implies (#[trigger] c3.songs[j]).title != t by {
        assert(c3.songs[j].title == c.songs[j].title);
        assert(c.songs[j].title != t);
    }
    assert(newrow.title == t);
    lemma_song_title_idx_at(c3.songs, t, n);
    // its joined detail is the record's own fields
    assert(c3.performers == c1.performers);
    assert(c3.albums == c2.albums);
    assert(newrow.performer_id == pid && newrow.album_id == aid);
    assert(performer_name_or_unknown(c3, pid) == r.artist);
    assert(album_name_or_unknown(c3, aid) == r.album);
    assert(spec_song_details(c3, newrow) =~~= details_of_record(r));
}

/// Reconciling a record of a different title moves nothing about the one
/// row of title `t`: the row, its uniqueness, and its joined names stay.
proof fn lemma_apply_preserves_sole_row(c: CatalogV, r: RecordV, t: Seq<char>, d: SongDetailsV)
    requires
        c.wf(),
        r.title != t,
        sole_title_row(c, t, d),
    ensures
        spec_apply(c, r).wf(),
        sole_title_row(spec_apply(c, r), t, d),
{
    lemma_apply_props(c, r);
    let c2 = spec_apply(c, r);
    let i0 = song_title_idx(c.songs, t);
    lemma_song_title_idx(c.songs, t);
    let row = c.songs[i0];
    assert(row.title == t);
    assert(c2.songs[i0] == row);
    assert forall|j: int| 0 <= j < i0 implies (#[trigger] c2.songs[j]).title != t by {
        assert(c2.songs[j].title == c.songs[j].title);
        assert(c.songs[j].title != t);
    }
    lemma_song_title_idx_at(c2.songs, t, i0);
    assert forall|i: int|
        0 <= i < c2.songs.len() && (#[trigger] c2.songs[i]).title == t implies i == i0 by {
        if i < c.songs.len() {
            assert(c2.songs[i].title == c.songs[i].title);
        } else {
            assert(c2.songs.len() == c.songs.len() + 1);
            lemma_apply_appended_title(c, r);
            assert(c2.songs[i].title == r.title);
        }
    }
    // the joined names survive: ids did not move, names did not change
    assert(perf_id_idx(c.performers, row.performer_id) >= 0);
    lemma_perf_id_idx(c.performers, row.performer_id);
    lemma_perf_id_idx_stable(c.performers, c2.performers, row.performer_id);
    assert(album_id_idx(c.albums, row.album_id) >= 0);
    lemma_album_id_idx(c.albums, row.album_id);
    lemma_album_id_idx_stable(c.albums, c2.albums, row.album_id);
    assert(c2.performers[perf_id_idx(c.performers, row.performer_id)] == c.performers[
        perf_id_idx(c.performers, row.performer_id)
    ]);
    let ai = album_id_idx(c.albums, row.album_id);
    assert(c2.albums[ai].name == c.albums[ai].name);
    assert(performer_name_or_unknown(c2, row.performer_id) == performer_name_or_unknown(
        c,
        row.performer_id,
    ));
    assert(album_name_or_unknown(c2, row.album_id) == album_name_or_unknown(c, row.album_id));
    assert(spec_song_details(c2, row) =~~= spec_song_details(c, row));
}

/// No record of the crawl tail carries title `t`: after reconciling all of
/// them there is still no row of title `t`.
proof fn lemma_apply_all_no_title(c: CatalogV, rs: Seq<RecordV>, t: Seq<char>)
    requires
        c.wf(),
        song_title_idx(c.songs, t) == -1,
        forall|j: int| 0 <= j < rs.len() ==> (#[trigger] rs[j]).title != t,
    ensures
        spec_apply_all(c, rs).wf(),
        song_title_idx(spec_apply_all(c, rs).songs, t) == -1,
    decreases rs.len(),
{
    if rs.len() > 0 {
        assert(forall|j: int|
            0 <= j < rs.drop_last().len() ==> #[trigger] rs.drop_last()[j] == rs[j]);
        lemma_apply_all_no_title(c, rs.drop_last(), t);
        lemma_apply_no_title(spec_apply_all(c, rs.drop_last()), rs.last(), t);
    }
}

/// No record of the crawl tail carries title `t`: after reconciling all of
/// them the one row of title `t` still stands, unchanged.
proof fn lemma_apply_all_preserves_sole(c: CatalogV, rs: Seq<RecordV>, t: Seq<char>, d: SongDetailsV)
    requires
        c.wf(),
        sole_title_row(c, t, d),
        forall|j: int| 0 <= j < rs.len() ==> (#[trigger] rs[j]).title != t,
    ensures
        spec_apply_all(c, rs).wf(),
        sole_title_row(spec_apply_all(c, rs), t, d),
    decreases rs.len(),
{
    if rs.len() > 0 {
        assert(forall|j: int|
            0 <= j < rs.drop_last().len() ==> #[trigger] rs.drop_last()[j] == rs[j]);
        lemma_apply_all_preserves_sole(c, rs.drop_last(), t, d);
        lemma_apply_preserves_sole_row(spec_apply_all(c, rs.drop_last()), rs.last(), t, d);
    }
}

/// The cleanup keeps the one row of a title that the crawl still holds,
/// and it stays the only one.
proof fn lemma_cleanup_preserves_sole(c: CatalogV, rs: Seq<RecordV>, t: Seq<char>, d: SongDetailsV)
    requires
        c.wf(),
        sole_title_row(c, t, d),
        title_in(rs, t),
    ensures
        spec_cleanup(c, rs).wf(),
        sole_title_row(spec_cleanup(c, rs), t, d),
{
    lemma_cleanup_wf(c, rs);
    lemma_kept_songs(c.songs, rs);
    lemma_kept_songs_distinct(c.songs, rs);
    let kept = kept_songs(c.songs, rs);
    let i0 = song_title_idx(c.songs, t);
    lemma_song_title_idx(c.songs, t);
    let row = c.songs[i0];
    assert(row.title == t);
    assert(kept.contains(row));
    let w0 = choose|w: int| 0 <= w < kept.len() && kept[w] == row;
    assert forall|i: int|
        0 <= i < kept.len() && (#[trigger] kept[i]).title == t implies i == w0 by {
        assert(c.songs.contains(kept[i]));
        let u = choose|u: int| 0 <= u < c.songs.len() && c.songs[u] == kept[i];
        assert(c.songs[u].title == t);
        assert(u == i0);
        assert(kept[i] == row);
        if i != w0 {
            assert(kept[i].id != kept[w0].id);
        }
    }
    lemma_song_title_idx_at(kept, t, w0);
    let c2 = spec_cleanup(c, rs);
    assert(c2.performers == c.performers);
    assert(c2.albums == c.albums);
    assert(spec_song_details(c2, row) =~~= spec_song_details(c, row));
}

/// Law (round trip): synchronize a fresh catalog over a crawl in which
/// exactly one record carries some title; a catalog lookup by that title
/// afterwards returns exactly that record's fields, with the performer and
/// album names the record carried.
pub proof fn lemma_unique_title_round_trip(rs: Seq<RecordV>, k: int)
    requires
        0 <= k < rs.len(),
        forall|j: int|
            0 <= j < rs.len() && j != k ==> (#[trigger] rs[j]).title != rs[k].title,
    ensures
        spec_get_song_details(spec_sync(empty_catalog(), rs), rs[k].title) == Some(
            details_of_record(rs[k]),
        ),
{
    let t = rs[k].title;
    let d = details_of_record(rs[k]);
    let c0 = empty_catalog();
    assert(c0.wf());
    // before the unique record: no row of this title
    assert(forall|j: int|
        0 <= j < rs.take(k).len() ==> (#[trigger] rs.take(k)[j]).title != t);
    lemma_apply_all_no_title(c0, rs.take(k), t);
    let c1 = spec_apply_all(c0, rs.take(k));
    // the unique record creates the one row
    lemma_apply_creates_sole_row(c1, rs[k]);
    let c2 = spec_apply(c1, rs[k]);
    assert(rs.take(k + 1).drop_last() =~= rs.take(k));
    assert(rs.take(k + 1).last() == rs[k]);
    assert(c2 == spec_apply_all(c0, rs.take(k + 1)));
    // the rest of the crawl leaves it alone
    lemma_apply_all_split(c0, rs, k + 1);
    assert(forall|j: int|
        0 <= j < rs.skip(k + 1).len() ==> (#[trigger] rs.skip(k + 1)[j]).title != t);
    lemma_apply_all_preserves_sole(c2, rs.skip(k + 1), t, d);
    let c3 = spec_apply_all(c0, rs);
    assert(c3 == spec_apply_all(c2, rs.skip(k + 1)));
    assert(sole_title_row(c3, t, d));
    // and the cleanup keeps it: its title is in the crawl
    assert(title_in(rs, t));
    lemma_cleanup_preserves_sole(c3, rs, t, d);
    let c4 = spec_sync(c0, rs);
    assert(sole_title_row(c4, t, d));
    assert(spec_get_song_details(c4, t) == Some(d));
}

// ---------------------------------------------------------------------------
// A rescan of an unchanged directory inserts and removes nothing.
// ---------------------------------------------------------------------------

/// Law: a second synchronization over the same unchanged crawl also leaves
/// the album table's size, and every album's id, name and year, exactly as
/// the first pass left them: no duplicate album row is ever created by a
/// rescan.
pub proof fn lemma_resync_albums_stable(c: CatalogV, rs: Seq<RecordV>)
    requires
        c.wf(),
    ensures
        spec_sync(spec_sync(c, rs), rs).albums.len() == spec_sync(c, rs).albums.len(),
        forall|i: int|
            0 <= i < spec_sync(c, rs).albums.len() ==> (#[trigger] spec_sync(
                spec_sync(c, rs),
                rs,
            ).albums[i]).id == spec_sync(c, rs).albums[i].id && spec_sync(
                spec_sync(c, rs),
                rs,
            ).albums[i].name == spec_sync(c, rs).albums[i].name && spec_sync(
                spec_sync(c, rs),
                rs,
            ).albums[i].year == spec_sync(c, rs).albums[i].year,
{
    lemma_sync_props(c, rs);
    let s1 = spec_sync(c, rs);
    lemma_apply_all_props(c, rs);
    let a1 = spec_apply_all(c, rs);
    lemma_cleanup_wf(a1, rs);
    assert(s1.albums == a1.albums);
    assert forall|k: int| 0 <= k < rs.len() implies has_album(
        s1,
        (#[trigger] rs[k]).album,
        rs[k].year,
    ) by {
        assert(has_album(a1, rs[k].album, rs[k].year));
    }
    lemma_apply_all_albums_stable(s1, rs);
    lemma_apply_all_props(s1, rs);
    lemma_cleanup_wf(spec_apply_all(s1, rs), rs);
}

/// Law: a second synchronization over the same unchanged crawl also
/// inserts no song row and removes none: the song table keeps its size and
/// every row keeps its id and its whole identity key, and no table's next
/// id moves. Together with the performer and album laws above, a rescan of
/// an unchanged directory can only rewrite non-key attributes — to the
/// values the crawl itself carries.
pub proof fn lemma_resync_songs_stable(c: CatalogV, rs: Seq<RecordV>)
    requires
        c.wf(),
    ensures
        ({
            let s1 = spec_sync(c, rs);
            let s2 = spec_sync(s1, rs);
            &&& s2.songs.len() == s1.songs.len()
            &&& forall|i: int|
                0 <= i < s1.songs.len() ==> (#[trigger] s2.songs[i]).id == s1.songs[i].id
                    && s2.songs[i].performer_id == s1.songs[i].performer_id
                    && s2.songs[i].album_id == s1.songs[i].album_id && s2.songs[i].title
                    == s1.songs[i].title
            &&& s2.next_performer_id == s1.next_performer_id
            &&& s2.next_album_id == s1.next_album_id
            &&& s2.next_song_id == s1.next_song_id
        }),
{
    lemma_sync_props(c, rs);
    let s1 = spec_sync(c, rs);
    let a1 = spec_apply_all(c, rs);
    lemma_apply_all_keys_present(c, rs);
    lemma_cleanup_wf(a1, rs);
    lemma_kept_songs(a1.songs, rs);
    assert(s1.performers == a1.performers && s1.albums == a1.albums);
    // every record identity carries over from the reconciled table to the
    // cleaned one: the witness row's title is in the crawl, so it is kept
    assert forall|k: int| 0 <= k < rs.len() implies record_key_present(
        s1,
        #[trigger] rs[k],
    ) by {
        assert(record_key_present(a1, rs[k]));
        let pid = performer_id_by_name(a1, rs[k].artist);
        let aid = album_id_by_key(a1, rs[k].album, rs[k].year);
        lemma_song_idx(a1.songs, pid, aid, rs[k].title);
        let w = song_idx(a1.songs, pid, aid, rs[k].title);
        let row = a1.songs[w];
        assert(row.title == rs[k].title);
        assert(title_in(rs, row.title));
        assert(kept_songs(a1.songs, rs).contains(row));
        let u = choose|u: int| 0 <= u < s1.songs.len() && s1.songs[u] == row;
        lemma_song_idx_some(s1.songs, pid, aid, rs[k].title, u);
    }
    // replaying the crawl over the cleaned catalog inserts nothing
    lemma_apply_all_when_present(s1, rs);
    lemma_apply_all_props(s1, rs);
    let a2 = spec_apply_all(s1, rs);
    // and the final cleanup removes nothing: every title is in the crawl
    assert forall|i: int| 0 <= i < a2.songs.len() implies title_in(
        rs,
        (#[trigger] a2.songs[i]).title,
    ) by {
        assert(a2.songs[i].title == s1.songs[i].title);
        assert(title_in(rs, s1.songs[i].title));
    }
    lemma_kept_songs_all(a2.songs, rs);
    assert(spec_sync(s1, rs).songs == a2.songs);
}

} // verus!
