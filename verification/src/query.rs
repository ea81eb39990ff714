//! Read-only lookups used by the shell: the full song list with performer
//! and album names resolved, and one song's detail fetched by exact title.

use vstd::prelude::*;

use crate::catalog::{Catalog, Song};
use crate::model::{
    album_id_idx, lemma_album_id_idx, lemma_perf_id_idx, lemma_song_title_idx, perf_id_idx,
    song_title_idx, CatalogV, SongV,
};

verus! {

/// A song with its performer and album names resolved.
pub struct SongDetails {
    pub title: String,
    pub artist: String,
    pub album: String,
    pub path: String,
    pub track_number: i32,
    pub year: i32,
    pub genre: String,
}

/// Spec view of a resolved song detail.
#[verifier::ext_equal]
pub struct SongDetailsV {
    pub title: Seq<char>,
    pub artist: Seq<char>,
    pub album: Seq<char>,
    pub path: Seq<char>,
    pub track_number: int,
    pub year: int,
    pub genre: Seq<char>,
}

impl View for SongDetails {
    type V = SongDetailsV;

    open spec fn view(&self) -> SongDetailsV {
        SongDetailsV {
            title: self.title@,
            artist: self.artist@,
            album: self.album@,
            path: self.path@,
            track_number: self.track_number as int,
            year: self.year as int,
            genre: self.genre@,
        }
    }
}

/// The failure of a lookup by title.
#[derive(Debug, PartialEq, Eq, Structural)]
pub enum QueryError {
    /// No song row carries the requested title.
    NotFound,
}

/// The name of the performer row with this id, or `"Unknown"` when the
/// song's performer link is missing (outer-join semantics).
pub open spec fn performer_name_or_unknown(c: CatalogV, id: int) -> Seq<char> {
    let i = perf_id_idx(c.performers, id);
    if i >= 0 {
        c.performers[i].name
    } else {
        "Unknown"@
    }
}

/// The name of the album row with this id, or `"Unknown"` when the song's
/// album link is missing (outer-join semantics).
pub open spec fn album_name_or_unknown(c: CatalogV, id: int) -> Seq<char> {
    let i = album_id_idx(c.albums, id);
    if i >= 0 {
        c.albums[i].name
    } else {
        "Unknown"@
    }
}

/// One song row joined with its performer and album names.
pub open spec fn spec_song_details(c: CatalogV, s: SongV) -> SongDetailsV {
    SongDetailsV {
        title: s.title,
        artist: performer_name_or_unknown(c, s.performer_id),
        album: album_name_or_unknown(c, s.album_id),
        path: s.path,
        track_number: s.track,
        year: s.year,
        genre: s.genre,
    }
}

/// Every song row joined, in table order.
pub open spec fn spec_song_list(c: CatalogV) -> Seq<SongDetailsV> {
    c.songs.map_values(|s: SongV| spec_song_details(c, s))
}

/// The first song row carrying the title, joined, or nothing.
pub open spec fn spec_get_song_details(c: CatalogV, title: Seq<char>) -> Option<SongDetailsV> {
    let i = song_title_idx(c.songs, title);
    if i >= 0 {
        Some(spec_song_details(c, c.songs[i]))
    } else {
        None
    }
}

impl Catalog {
    /// The name of the performer row with this id, or `"Unknown"`.
    fn performer_name(&self, id: i64) -> (r: String)
        ensures
            r@ == performer_name_or_unknown(self@, id as int),
    {
        let n = self.performers.len();
        let mut i: usize = 0;
        while i < n
            invariant
                0 <= i <= n,
                n == self.performers.len(),
                forall|k: int| 0 <= k < i ==> (#[trigger] self@.performers[k]).id != id as int,
            decreases n - i,
        {
            if self.performers[i].id == id {
                proof {
                    lemma_perf_id_idx(self@.performers, id as int);
                    let f = perf_id_idx(self@.performers, id as int);
                    assert(self@.performers[i as int].id == id as int);
                    if f < i {
                        assert(self@.performers[f].id == id as int);
                    }
                }
                return self.performers[i].name.clone();
            }
            i += 1;
        }
        proof {
            lemma_perf_id_idx(self@.performers, id as int);
            let f = perf_id_idx(self@.performers, id as int);
            if f >= 0 {
                assert(self@.performers[f].id != id as int);
            }
        }
        "Unknown".to_owned()
    }

    /// The name of the album row with this id, or `"Unknown"`.
    fn album_name(&self, id: i64) -> (r: String)
        ensures
            r@ == album_name_or_unknown(self@, id as int),
    {
        let n = self.albums.len();
        let mut i: usize = 0;
        while i < n
            invariant
                0 <= i <= n,
                n == self.albums.len(),
                forall|k: int| 0 <= k < i ==> (#[trigger] self@.albums[k]).id != id as int,
            decreases n - i,
        {
            if self.albums[i].id == id {
                proof {
                    lemma_album_id_idx(self@.albums, id as int);
                    let f = album_id_idx(self@.albums, id as int);
                    assert(self@.albums[i as int].id == id as int);
                    if f < i {
                        assert(self@.albums[f].id == id as int);
                    }
                }
                return self.albums[i].name.clone();
            }
            i += 1;
        }
        proof {
            lemma_album_id_idx(self@.albums, id as int);
            let f = album_id_idx(self@.albums, id as int);
            if f >= 0 {
                assert(self@.albums[f].id != id as int);
            }
        }
        "Unknown".to_owned()
    }

    /// One song row joined with its performer and album names.
    fn details_of(&self, s: &Song) -> (d: SongDetails)
        ensures
            d@ == spec_song_details(self@, s@),
    {
        SongDetails {
            title: s.title.clone(),
            artist: self.performer_name(s.performer_id),
            album: self.album_name(s.album_id),
            path: s.path.clone(),
            track_number: s.track,
            year: s.year,
            genre: s.genre.clone(),
        }
    }

    /// Every song with its performer and album names resolved via the
    /// foreign keys, substituting `"Unknown"` where a link is missing.
    pub fn get_songs_from_database(&self) -> (r: Vec<SongDetails>)
        ensures
            r@.map_values(|d: SongDetails| d@) == spec_song_list(self@),
    {
        let mut out: Vec<SongDetails> = Vec::new();
        proof {
            assert(out@.map_values(|d: SongDetails| d@) =~~= self@.songs.take(0).map_values(
                |s: SongV| spec_song_details(self@, s),
            ));
        }
        let n = self.songs.len();
        let mut i: usize = 0;
        while i < n
            invariant
                0 <= i <= n,
                n == self.songs.len(),
                out@.map_values(|d: SongDetails| d@) == self@.songs.take(i as int).map_values(
                    |s: SongV| spec_song_details(self@, s),
                ),
            decreases n - i,
        {
            let ghost prev = out@;
            let d = self.details_of(&self.songs[i]);
            out.push(d);
            proof {
                assert(self@.songs.take(i as int + 1) =~= self@.songs.take(i as int).push(
                    self@.songs[i as int],
                ));
                assert(out@ == prev.push(d));
                assert(prev.map_values(|d: SongDetails| d@).len() == prev.len());
                assert(prev.len() == i as int);
                assert forall|k: int| 0 <= k < out@.len() implies (#[trigger] out@[k])@
                    == spec_song_details(self@, self@.songs.take(i as int + 1)[k]) by {
                    if k < i as int {
                        assert(out@[k] == prev[k]);
                        assert(prev.map_values(|d: SongDetails| d@)[k] == prev[k]@);
                        assert(self@.songs.take(i as int)[k] == self@.songs.take(
                            i as int + 1,
                        )[k]);
                    } else {
                        assert(out@[k] == d);
                    }
                }
                assert(out@.map_values(|d: SongDetails| d@) =~~= self@.songs.take(
                    i as int + 1,
                ).map_values(|s: SongV| spec_song_details(self@, s)));
            }
            i += 1;
        }
        proof {
            assert(self@.songs.take(n as int) =~= self@.songs);
            assert(out@.map_values(|d: SongDetails| d@) =~~= spec_song_list(self@));
        }
        out
    }

    /// The first song carrying exactly this title, with its full detail, or
    /// a not-found error when no row matches.
    pub fn get_song_details(&self, title: &String) -> (r: Result<SongDetails, QueryError>)
        ensures
            match r {
                Ok(d) => spec_get_song_details(self@, title@) == Some(d@),
                Err(e) => spec_get_song_details(self@, title@) is None && e
                    == QueryError::NotFound,
            },
    {
        let n = self.songs.len();
        let mut i: usize = 0;
        while i < n
            invariant
                0 <= i <= n,
                n == self.songs.len(),
                forall|k: int| 0 <= k < i ==> (#[trigger] self@.songs[k]).title != title@,
            decreases n - i,
        {
            if self.songs[i].title == *title {
                proof {
                    lemma_song_title_idx(self@.songs, title@);
                    let f = song_title_idx(self@.songs, title@);
                    assert(self@.songs[i as int].title == title@);
                    if f < i {
                        assert(self@.songs[f].title == title@);
                    }
                }
                return Ok(self.details_of(&self.songs[i]));
            }
            i += 1;
        }
        proof {
            lemma_song_title_idx(self@.songs, title@);
            let f = song_title_idx(self@.songs, title@);
            if f >= 0 {
                assert(self@.songs[f].title != title@);
            }
        }
        Err(QueryError::NotFound)
    }
}

} // verus!
