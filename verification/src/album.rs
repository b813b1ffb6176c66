//! The model for a collection of audio tracks.
use crate::text::{chars_to_string, push_str};
use crate::track::{entry_files, entry_tracks, files_from, track_order, Track};
use std::path::PathBuf;
use vstd::prelude::*;

verus! {

/// A group of tracks with common metadata ie. an album.
pub struct Album {
    /// List of tracks for this Album.
    pub tracks: Vec<Track>,
    /// Album title.
    pub title: Option<String>,
    /// Album artist.
    pub artist: Option<String>,
    /// Number of tracks in the album.
    pub track_total: Option<u32>,
    /// Number of disks in the album.
    pub disk_total: Option<u32>,
}

fn clone_text(o: &Option<String>) -> (r: Option<String>)
    ensures
        r == *o,
{
    match o {
        Some(s) => Some(s.clone()),
        None => None,
    }
}

/// Whether `a` is the album of the tracks `tks`: it holds them in their
/// order; its title, artist and disk total are those of the first track, and
/// its track total is the number of tracks (as a `u32`, wrapping); an album
/// without tracks knows none of these.
pub open spec fn album_of_tracks(a: Album, tks: Seq<Track>) -> bool {
    &&& a.tracks@ == tks
    &&& tks.len() == 0 ==> a.title is None && a.artist is None && a.track_total is None
        && a.disk_total is None
    &&& tks.len() > 0 ==> a.title == tks[0].album && a.artist == tks[0].artist && a.disk_total
        == tks[0].disk_total && a.track_total == Some((tks.len() % 0x1_0000_0000) as u32)
}

/// Create an album from a group of tracks (see `album_of_tracks`).
pub fn album_from_tracks(tks: Vec<Track>) -> (a: Album)
    ensures
        album_of_tracks(a, tks@),
{
    let mut album = Album { tracks: tks, title: None, artist: None, track_total: None, disk_total: None };
    if album.tracks.len() > 0 {
        album.title = clone_text(&album.tracks[0].album);
        album.artist = clone_text(&album.tracks[0].artist);
        album.disk_total = album.tracks[0].disk_total;
        let n = album.tracks.len();
        album.track_total = Some(((n as u64) % 0x1_0000_0000u64) as u32);
    }
    album
}

} // verus!

verus! {

/// The message for a path that is not a directory.
pub open spec fn not_directory_text(p: Seq<char>) -> Seq<char> {
    "File is not a directory: "@ + p + " "@
}

/// Capture all the tracks in a directory and treat them as a group: the
/// directory's entries (see `files_from`) make an album (see
/// `album_from_tracks`) and a list of the other files. A path that is not a
/// directory (`is_dir` false; `shown` is how the path is displayed) is an
/// error, with its message.
pub fn album_from_path(
    is_dir: bool,
    shown: &str,
    entries: Vec<(PathBuf, Option<Track>, String)>,
) -> (r: Result<(Album, Vec<PathBuf>), String>)
    ensures
        !is_dir ==> (r matches Err(e) && e@ == not_directory_text(shown@)),
        is_dir ==> (r matches Ok((a, files)) && album_of_tracks(
            a,
            track_order(entry_tracks(entries@)),
        ) && files@ == entry_files(entries@)),
{
    if !is_dir {
        let mut m: Vec<char> = Vec::new();
        push_str(&mut m, "File is not a directory: ");
        push_str(&mut m, shown);
        push_str(&mut m, " ");
        proof {
            reveal_strlit("File is not a directory: ");
            reveal_strlit(" ");
        }
        assert(m@ =~= not_directory_text(shown@));
        return Err(chars_to_string(m.as_slice()));
    }
    let (tracks, files) = files_from(entries);
    let album = album_from_tracks(tracks);
    Ok((album, files))
}

} // verus!
