//! The domain model: an album as the source catalogue holds it, and the
//! flattened record that the archive stores for it.

use crate::sync::decimal::i32_from_str;
use crate::sync::decimal::parse_i32;
use vstd::prelude::*;
use vstd::std_specs::cmp::PartialEqSpecImpl;

verus! {

/// The title of an album.
#[derive(Debug)]
pub struct AlbumName(pub String);

/// The artists of an album, joined by semicolons when there are several.
#[derive(Debug)]
pub struct AlbumArtist(pub String);

/// The number of tracks on an album.
#[derive(Debug)]
pub struct TrackCount(pub u16);

/// The year in which an album was released.
#[derive(Debug)]
pub struct ReleaseYear(pub i32);

/// When an album was starred, in the source's own format.
#[derive(Debug)]
pub struct DateAdded(pub String);

/// The name of the playlist through which an album was starred.
#[derive(Debug)]
pub struct Playlist(pub String);

/// The six fields of an album as mathematical values: what an `Album` and an
/// `AlbumTsv` stand for in contracts.
pub struct AlbumTsvView {
    pub artists: Seq<char>,
    pub album: Seq<char>,
    pub tracks: u16,
    pub year: i32,
    pub date_added: Seq<char>,
    pub playlist: Seq<char>,
}

/// An album of the source catalogue.
#[derive(Debug)]
pub struct Album {
    name: AlbumName,
    artist: AlbumArtist,
    tracks: TrackCount,
    year: ReleaseYear,
    date_added: DateAdded,
    playlist: Playlist,
}

/// The flattened form of an album: one record of the archive.
#[derive(Debug)]
pub struct AlbumTsv {
    pub artists: String,
    pub album: String,
    pub tracks: u16,
    pub year: i32,
    pub date_added: String,
    pub playlist: String,
}

impl ReleaseYear {
    /// Reads a release year from its text. `None` unless the text is a
    /// decimal number, with or without a sign, that fits in an `i32`.
    pub fn parse(text: &str) -> (r: Option<ReleaseYear>)
        ensures
            match r {
                Some(year) => parse_i32(text@) == Some(year.0),
                None => parse_i32(text@) is None,
            },
    {
        match i32_from_str(text) {
            Some(year) => Some(ReleaseYear(year)),
            None => None,
        }
    }
}

impl View for Album {
    type V = AlbumTsvView;

    closed spec fn view(&self) -> AlbumTsvView {
        AlbumTsvView {
            artists: self.artist.0@,
            album: self.name.0@,
            tracks: self.tracks.0,
            year: self.year.0,
            date_added: self.date_added.0@,
            playlist: self.playlist.0@,
        }
    }
}

impl Album {
    /// Builds an album from its six fields.
    pub fn new(
        name: AlbumName,
        artist: AlbumArtist,
        tracks: TrackCount,
        year: ReleaseYear,
        date_added: DateAdded,
        playlist: Playlist,
    ) -> (r: Album)
        ensures
            r@ == (AlbumTsvView {
                artists: artist.0@,
                album: name.0@,
                tracks: tracks.0,
                year: year.0,
                date_added: date_added.0@,
                playlist: playlist.0@,
            }),
    {
        Album { name, artist, tracks, year, date_added, playlist }
    }

    /// The record that the archive stores for this album: the same six
    /// fields, nothing added and nothing lost.
    pub fn to_tsv_entry(&self) -> (r: AlbumTsv)
        ensures
            r@ == self@,
    {
        AlbumTsv {
            artists: self.artist.0.clone(),
            album: self.name.0.clone(),
            tracks: self.tracks.0,
            year: self.year.0,
            date_added: self.date_added.0.clone(),
            playlist: self.playlist.0.clone(),
        }
    }
}

impl View for AlbumTsv {
    type V = AlbumTsvView;

    open spec fn view(&self) -> AlbumTsvView {
        AlbumTsvView {
            artists: self.artists@,
            album: self.album@,
            tracks: self.tracks,
            year: self.year,
            date_added: self.date_added@,
            playlist: self.playlist@,
        }
    }
}

impl DeepView for AlbumTsv {
    type V = AlbumTsvView;

    open spec fn deep_view(&self) -> AlbumTsvView {
        self@
    }
}

impl Clone for AlbumTsv {
    fn clone(&self) -> (r: AlbumTsv)
        ensures
            r == *self,
    {
        AlbumTsv {
            artists: self.artists.clone(),
            album: self.album.clone(),
            tracks: self.tracks,
            year: self.year,
            date_added: self.date_added.clone(),
            playlist: self.playlist.clone(),
        }
    }
}

impl PartialEq for AlbumTsv {
    /// Two records are equal exactly when all six fields are.
    fn eq(&self, other: &AlbumTsv) -> (r: bool) {
        self.artists == other.artists && self.album == other.album && self.tracks == other.tracks
            && self.year == other.year && self.date_added == other.date_added && self.playlist
            == other.playlist
    }
}

impl PartialEqSpecImpl for AlbumTsv {
    open spec fn obeys_eq_spec() -> bool {
        true
    }

    open spec fn eq_spec(&self, other: &AlbumTsv) -> bool {
        self@ == other@
    }
}

impl Eq for AlbumTsv {

}

} // verus!
