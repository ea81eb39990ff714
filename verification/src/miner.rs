//! The directory crawler: walk a root directory recursively, read the
//! embedded tag of every `.mp3` file, and collect one fully-defaulted
//! metadata record per readable file. A file that is not a valid track, or
//! an unreadable subtree, is skipped — a single bad entry never aborts the
//! scan.
//!
//! What the file system holds is outside the reach of verification, so the
//! wrappers below promise nothing about it; everything derived from their
//! results — candidate filtering, defaulting, record assembly — is
//! verified in `paths` and `song_settings`.

use vstd::prelude::*;

use id3::TagLike;
use std::io::Write;

use crate::paths::{has_mp3_extension, spec_has_mp3_ext, spec_parent_or_unknown};
use crate::song_settings::{
    assign_tag, build_record, spec_assign_tag, spec_record_from, MetadataRecord, RawTag, RawTagV,
};

verus! {

/// Relies on walkdir::WalkDir: yields every entry under the root,
/// recursively, as a (path, is-regular-file) pair; unreadable entries and
/// subtrees are skipped rather than aborting the walk.
#[verifier::external_body]
fn list_entries(root: &str) -> (r: Vec<(String, bool)>) {
    walkdir::WalkDir::new(root)
        .into_iter()
        .filter_map(|entry| entry.ok())
        .map(|entry| {
            let is_file = entry.file_type().is_file();
            (entry.path().to_string_lossy().into_owned(), is_file)
        })
        .collect()
}

/// Relies on id3::Tag::read_from_path and the TagLike accessors artist,
/// title, album, year, genre and track: the fields present in the file's
/// embedded tag, or `None` when the file holds no readable tag.
#[verifier::external_body]
fn read_tag(path: &str) -> (r: Option<RawTag>) {
    let tag = id3::Tag::read_from_path(path).ok()?;
    Some(RawTag {
        artist: tag.artist().map(|s| s.to_string()),
        title: tag.title().map(|s| s.to_string()),
        album: tag.album().map(|s| s.to_string()),
        year: tag.year(),
        genre: tag.genre().map(|s| s.to_string()),
        track: tag.track(),
    })
}

/// Relies on chrono's Utc::now and Datelike::year: the current calendar
/// year, used as the default when a tag carries no year.
#[verifier::external_body]
fn current_year() -> (y: i32) {
    chrono::Datelike::year(&chrono::Utc::now())
}

/// Relies on std::io::stderr, through writeln: prints the diagnostic for a
/// file that did not yield a record.
#[verifier::external_body]
fn log_invalid_track(path: &str) {
    let _ = writeln!(std::io::stderr(), "{:?} is not a valid MP3 file", path);
}

/// Read one file's tag and build its metadata record: `None` when the file
/// is not an `.mp3` candidate or holds no readable tag; otherwise a record
/// built by the defaulting rules from whatever the tag held, carrying this
/// path and its parent directory.
fn process_song(path: &str) -> (r: Option<MetadataRecord>)
    ensures
        !spec_has_mp3_ext(path@) ==> r is None,
        match r {
            Some(rec) => {
                &&& rec@.path == path@
                &&& rec@.album_path == spec_parent_or_unknown(path@)
                &&& spec_has_mp3_ext(path@)
                &&& exists|t: RawTagV, y: int|
                    rec@ == spec_record_from(spec_assign_tag(t, y), path@)
            },
            None => true,
        },
{
    if !has_mp3_extension(path) {
        return None;
    }
    match read_tag(path) {
        Some(raw) => {
            let default_year = current_year();
            let info = assign_tag(&raw, default_year);
            let rec = build_record(info, path);
            proof {
                assert(rec@ == spec_record_from(
                    spec_assign_tag(raw@, default_year as int),
                    path@,
                ));
            }
            Some(rec)
        },
        None => None,
    }
}

/// Crawl the directory tree under `mp3_dir_path`: every regular file that
/// carries the `.mp3` extension and a readable tag contributes one record;
/// everything else is skipped. Every returned record's path ends in `.mp3`
/// and its album path is that path's parent directory.
pub fn extract(mp3_dir_path: &str) -> (r: Vec<MetadataRecord>)
    ensures
        forall|i: int|
            0 <= i < r@.len() ==> spec_has_mp3_ext((#[trigger] r@[i])@.path) && r@[i]@.album_path
                == spec_parent_or_unknown(r@[i]@.path),
{
    let entries = list_entries(mp3_dir_path);
    let mut out: Vec<MetadataRecord> = Vec::new();
    let n = entries.len();
    let mut i: usize = 0;
    while i < n
        invariant
            0 <= i <= n,
            n == entries.len(),
            forall|k: int|
                0 <= k < out@.len() ==> spec_has_mp3_ext((#[trigger] out@[k])@.path)
                    && out@[k]@.album_path == spec_parent_or_unknown(out@[k]@.path),
        decreases n - i,
    {
        let entry = &entries[i];
        if entry.1 {
            match process_song(entry.0.as_str()) {
                Some(rec) => {
                    out.push(rec);
                },
                None => {
                    log_invalid_track(entry.0.as_str());
                },
            }
        }
        i += 1;
    }
    out
}

/// Extract the metadata of every song under the directory; the work is
/// done by [`extract`].
pub fn extract_songs_from_directory(directory: &str) -> (r: Vec<MetadataRecord>)
    ensures
        forall|i: int|
            0 <= i < r@.len() ==> spec_has_mp3_ext((#[trigger] r@[i])@.path) && r@[i]@.album_path
                == spec_parent_or_unknown(r@[i]@.path),
{
    extract(directory)
}

} // verus!
