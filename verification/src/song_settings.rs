//! Metadata records and the defaulting rules for missing tag fields.
//!
//! A `RawTag` holds what was actually present in a file's embedded tag;
//! `assign_tag` turns it into a fully-defaulted `TagInfo` (missing text
//! fields become `"Unknown"`, a missing year becomes the current calendar
//! year supplied by the caller, a missing or unrepresentable track number
//! becomes 0). `build_record` attaches the structural context — the file
//! path and its containing-directory path — producing the `MetadataRecord`
//! that the reconciliation engine consumes.

use vstd::prelude::*;

use crate::model::RecordV;
use crate::paths::{parent_or_unknown, spec_parent_or_unknown};

verus! {

/// The fields actually present in a file's embedded tag.
pub struct RawTag {
    pub artist: Option<String>,
    pub title: Option<String>,
    pub album: Option<String>,
    pub year: Option<i32>,
    pub genre: Option<String>,
    pub track: Option<u32>,
}

/// Spec view of a raw tag.
#[verifier::ext_equal]
pub struct RawTagV {
    pub artist: Option<Seq<char>>,
    pub title: Option<Seq<char>>,
    pub album: Option<Seq<char>>,
    pub year: Option<int>,
    pub genre: Option<Seq<char>>,
    pub track: Option<int>,
}

impl View for RawTag {
    type V = RawTagV;

    open spec fn view(&self) -> RawTagV {
        RawTagV {
            artist: match self.artist {
                Some(s) => Some(s@),
                None => None,
            },
            title: match self.title {
                Some(s) => Some(s@),
                None => None,
            },
            album: match self.album {
                Some(s) => Some(s@),
                None => None,
            },
            year: match self.year {
                Some(y) => Some(y as int),
                None => None,
            },
            genre: match self.genre {
                Some(s) => Some(s@),
                None => None,
            },
            track: match self.track {
                Some(n) => Some(n as int),
                None => None,
            },
        }
    }
}

/// A fully-defaulted set of descriptive fields read from one tag.
pub struct TagInfo {
    pub artist: String,
    pub title: String,
    pub album: String,
    pub year: i32,
    pub genre: String,
    pub track: i32,
}

/// Spec view of a defaulted tag.
#[verifier::ext_equal]
pub struct TagInfoV {
    pub artist: Seq<char>,
    pub title: Seq<char>,
    pub album: Seq<char>,
    pub year: int,
    pub genre: Seq<char>,
    pub track: int,
}

impl View for TagInfo {
    type V = TagInfoV;

    open spec fn view(&self) -> TagInfoV {
        TagInfoV {
            artist: self.artist@,
            title: self.title@,
            album: self.album@,
            year: self.year as int,
            genre: self.genre@,
            track: self.track as int,
        }
    }
}

/// A missing text field defaults to `"Unknown"`.
pub open spec fn or_unknown(o: Option<Seq<char>>) -> Seq<char> {
    match o {
        Some(s) => s,
        None => "Unknown"@,
    }
}

/// The defaulting rules: text fields default to `"Unknown"`, the year to
/// the given default, the track to 0 (also when it does not fit an `i32`).
pub open spec fn spec_assign_tag(t: RawTagV, default_year: int) -> TagInfoV {
    TagInfoV {
        artist: or_unknown(t.artist),
        title: or_unknown(t.title),
        album: or_unknown(t.album),
        year: match t.year {
            Some(y) => y,
            None => default_year,
        },
        genre: or_unknown(t.genre),
        track: match t.track {
            Some(n) => if n <= i32::MAX as int {
                n
            } else {
                0
            },
            None => 0,
        },
    }
}

/// Apply the defaulting rules to one raw tag.
pub fn assign_tag(tag: &RawTag, default_year: i32) -> (r: TagInfo)
    ensures
        r@ == spec_assign_tag(tag@, default_year as int),
{
    let artist = match &tag.artist {
        Some(s) => s.clone(),
        None => "Unknown".to_owned(),
    };
    let title = match &tag.title {
        Some(s) => s.clone(),
        None => "Unknown".to_owned(),
    };
    let album = match &tag.album {
        Some(s) => s.clone(),
        None => "Unknown".to_owned(),
    };
    let year = match &tag.year {
        Some(y) => *y,
        None => default_year,
    };
    let genre = match &tag.genre {
        Some(s) => s.clone(),
        None => "Unknown".to_owned(),
    };
    let track: i32 = match &tag.track {
        Some(n) => if *n <= i32::MAX as u32 {
            *n as i32
        } else {
            0
        },
        None => 0,
    };
    TagInfo { artist, title, album, year, genre, track }
}

/// One discovered file's metadata: the defaulted tag fields plus the file
/// path and the containing-directory ("album") path.
#[derive(Clone)]
pub struct MetadataRecord {
    pub title: String,
    pub artist: String,
    pub album: String,
    pub track: i32,
    pub year: i32,
    pub genre: String,
    pub path: String,
    pub album_path: String,
}

impl View for MetadataRecord {
    type V = RecordV;

    open spec fn view(&self) -> RecordV {
        RecordV {
            title: self.title@,
            artist: self.artist@,
            album: self.album@,
            track: self.track as int,
            year: self.year as int,
            genre: self.genre@,
            path: self.path@,
            album_path: self.album_path@,
        }
    }
}

/// The record derived from a defaulted tag and the file's path.
pub open spec fn spec_record_from(t: TagInfoV, path: Seq<char>) -> RecordV {
    RecordV {
        title: t.title,
        artist: t.artist,
        album: t.album,
        track: t.track,
        year: t.year,
        genre: t.genre,
        path: path,
        album_path: spec_parent_or_unknown(path),
    }
}

/// Attach the structural context to a defaulted tag.
pub fn build_record(info: TagInfo, path: &str) -> (r: MetadataRecord)
    ensures
        r@ == spec_record_from(info@, path@),
{
    let album_path = parent_or_unknown(path);
    MetadataRecord {
        title: info.title,
        artist: info.artist,
        album: info.album,
        track: info.track,
        year: info.year,
        genre: info.genre,
        path: path.to_owned(),
        album_path,
    }
}

} // verus!
