//! The source reader: what a page of the source catalogue's starred albums
//! is, and how its rows become records.

use crate::sync::data::Album;
use crate::sync::data::AlbumArtist;
use crate::sync::data::AlbumName;
use crate::sync::data::AlbumTsv;
use crate::sync::data::AlbumTsvView;
use crate::sync::data::DateAdded;
use crate::sync::data::Playlist;
use crate::sync::data::ReleaseYear;
use crate::sync::data::TrackCount;
use crate::sync::decimal::parse_i32;
use crate::sync::error::StoreError;
use vstd::prelude::*;

verus! {

/// The number of albums that one query of the source catalogue returns at most.
pub const PAGE_SIZE: usize = 25;

/// The query that lists the starred albums, most recently added first: one
/// row for each album of each playlist whose name begins with `starred`, the
/// album's artists joined into one text and its release date cut to the
/// year. `:limit` takes the page size, `:offset` the number of rows to skip.
pub const SELECT_STARRED_ALBUMS: &'static str =
    "select GROUP_CONCAT(artist, '; ') as artists, album, track_count, release_date, added_at, playlist
from
(
    select
        art.name as artist,
        a.name as album,
        a.id as album_id,
        a.total_tracks as track_count,
        substr(a.release_date, 1, 4) as release_date,
        pt.added_at,
        p.name as playlist,
        p.id as playlist_id
    from Album a
    join albumartist aa on aa.album_id = a.id
    join artist art on art.id = aa.artist_id
    join track t on t.album_id = a.id
    join playlisttrack pt on pt.track_id = t.id
    join playlist p on p.id = pt.playlist_id
    where p.name like 'starred%'
    group by a.id, art.id, p.id
    order by p.id, a.id, art.name
)
group by album_id, playlist_id
order by added_at DESC
limit :limit OFFSET :offset";

/// One row of the query's result, column by column.
#[derive(Debug)]
pub struct StarredRow {
    pub artists: String,
    pub album: String,
    pub track_count: u16,
    pub release_date: String,
    pub added_at: String,
    pub playlist: String,
}

/// A row as mathematical values.
pub struct StarredRowView {
    pub artists: Seq<char>,
    pub album: Seq<char>,
    pub track_count: u16,
    pub release_date: Seq<char>,
    pub added_at: Seq<char>,
    pub playlist: Seq<char>,
}

impl View for StarredRow {
    type V = StarredRowView;

    open spec fn view(&self) -> StarredRowView {
        StarredRowView {
            artists: self.artists@,
            album: self.album@,
            track_count: self.track_count,
            release_date: self.release_date@,
            added_at: self.added_at@,
            playlist: self.playlist@,
        }
    }
}

impl DeepView for StarredRow {
    type V = StarredRowView;

    open spec fn deep_view(&self) -> StarredRowView {
        self@
    }
}

/// The album that a row describes: its columns, with the release year read
/// as a number. A row whose year is no number describes none.
pub open spec fn album_of(row: StarredRowView) -> Option<AlbumTsvView> {
    match parse_i32(row.release_date) {
        Some(year) => Some(
            AlbumTsvView {
                artists: row.artists,
                album: row.album,
                tracks: row.track_count,
                year,
                date_added: row.added_at,
                playlist: row.playlist,
            },
        ),
        None => None,
    }
}

impl StarredRow {
    /// The album that this row describes, or `None` where its release year
    /// is not a number.
    pub fn to_album(&self) -> (r: Option<Album>)
        ensures
            match r {
                Some(album) => album_of(self@) == Some(album@),
                None => album_of(self@) is None,
            },
    {
        match ReleaseYear::parse(self.release_date.as_str()) {
            Some(year) => Some(
                Album::new(
                    AlbumName(self.album.clone()),
                    AlbumArtist(self.artists.clone()),
                    TrackCount(self.track_count),
                    year,
                    DateAdded(self.added_at.clone()),
                    Playlist(self.playlist.clone()),
                ),
            ),
            None => None,
        }
    }
}

/// Turns one page of rows into the page of records, row by row and in the
/// rows' order. A row whose release year is not a number fails the whole
/// page, with that row's place: such a row is never skipped.
pub fn get_the_most_recent_starred_albums(rows: &Vec<StarredRow>) -> (r: Result<
    Vec<AlbumTsv>,
    StoreError,
>)
    ensures
        match r {
            Ok(albums) => {
                &&& albums.len() == rows.len()
                &&& forall|i: int|
                    0 <= i < rows.len() ==> album_of(#[trigger] rows[i]@) == Some(albums[i]@)
            },
            Err(StoreError::Year { row }) => {
                &&& row < rows.len()
                &&& album_of(rows[row as int]@) is None
                &&& forall|i: int| 0 <= i < row ==> album_of(#[trigger] rows[i]@) is Some
            },
            Err(StoreError::Query(_)) => false,
        },
{
    let mut albums: Vec<AlbumTsv> = Vec::new();
    let mut i: usize = 0;
    while i < rows.len()
        invariant
            i <= rows.len(),
            albums.len() == i,
            forall|j: int| 0 <= j < i ==> album_of(#[trigger] rows[j]@) == Some(albums[j]@),
        decreases rows.len() - i,
    {
        match rows[i].to_album() {
            Some(album) => {
                albums.push(album.to_tsv_entry());
            },
            None => {
                return Err(StoreError::Year { row: i });
            },
        }
        i = i + 1;
    }
    Ok(albums)
}

} // verus!
