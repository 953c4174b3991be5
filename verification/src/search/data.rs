//! The results of a search.

use crate::sync::decimal::decimal;
use crate::sync::decimal::push_decimal;
use vstd::prelude::*;
use vstd::string::StringExecFns;

verus! {

/// The order in which results are listed.
#[derive(Debug, Clone, Copy, PartialEq, Eq, Structural)]
pub enum SortOrder {
    Added,
    Artist,
    Album,
    Year,
}

/// The name under which a sort order is shown.
pub open spec fn sort_name(sort: SortOrder) -> Seq<char> {
    match sort {
        SortOrder::Added => "Added"@,
        SortOrder::Artist => "Artist"@,
        SortOrder::Album => "Album"@,
        SortOrder::Year => "Year"@,
    }
}

impl SortOrder {
    /// The name under which this sort order is shown.
    pub fn name(&self) -> (r: &'static str)
        ensures
            r@ == sort_name(*self),
    {
        match self {
            SortOrder::Added => "Added",
            SortOrder::Artist => "Artist",
            SortOrder::Album => "Album",
            SortOrder::Year => "Year",
        }
    }
}

/// One album among the results of a search.
#[derive(Debug, PartialEq, Eq)]
pub struct FoundAlbum {
    pub artists: String,
    pub album: String,
    pub tracks: u16,
    pub year_released: String,
    pub date_added: String,
    pub playlist: String,
}

/// A `FoundAlbum` as mathematical values.
pub struct FoundAlbumView {
    pub artists: Seq<char>,
    pub album: Seq<char>,
    pub tracks: u16,
    pub year_released: Seq<char>,
    pub date_added: Seq<char>,
    pub playlist: Seq<char>,
}

impl View for FoundAlbum {
    type V = FoundAlbumView;

    open spec fn view(&self) -> FoundAlbumView {
        FoundAlbumView {
            artists: self.artists@,
            album: self.album@,
            tracks: self.tracks,
            year_released: self.year_released@,
            date_added: self.date_added@,
            playlist: self.playlist@,
        }
    }
}

impl DeepView for FoundAlbum {
    type V = FoundAlbumView;

    open spec fn deep_view(&self) -> FoundAlbumView {
        self@
    }
}

/// The results of a search, with what the search was for and how the
/// results are to be shown.
#[derive(Debug)]
pub struct SearchResults {
    pub results: Vec<FoundAlbum>,
    pub search_term: String,
    pub sort: SortOrder,
    pub include_header: bool,
    pub include_playlist_name: bool,
}

/// A `SearchResults` as mathematical values.
pub struct SearchResultsView {
    pub results: Seq<FoundAlbumView>,
    pub search_term: Seq<char>,
    pub sort: SortOrder,
    pub include_header: bool,
    pub include_playlist_name: bool,
}

impl View for SearchResults {
    type V = SearchResultsView;

    open spec fn view(&self) -> SearchResultsView {
        SearchResultsView {
            results: self.results.deep_view(),
            search_term: self.search_term@,
            sort: self.sort,
            include_header: self.include_header,
            include_playlist_name: self.include_playlist_name,
        }
    }
}

/// The texts of a sequence of strings.
pub open spec fn texts(fields: Seq<String>) -> Seq<Seq<char>> {
    Seq::new(fields.len(), |i: int| fields[i]@)
}

/// Pieces of text in one text, with `sep` between each two.
pub open spec fn join(pieces: Seq<Seq<char>>, sep: char) -> Seq<char>
    decreases pieces.len(),
{
    if pieces.len() == 0 {
        Seq::empty()
    } else if pieces.len() == 1 {
        pieces[0]
    } else {
        join(pieces.drop_last(), sep) + seq![sep] + pieces.last()
    }
}

/// The fields under which an album is shown: artists, album, tracks, year
/// and date added, and the playlist where that is asked for.
pub open spec fn display_fields(album: FoundAlbumView, include_playlist_name: bool) -> Seq<
    Seq<char>,
> {
    let fields = seq![
        album.artists,
        album.album,
        decimal(album.tracks as nat),
        album.year_released,
        album.date_added,
    ];
    if include_playlist_name {
        fields.push(album.playlist)
    } else {
        fields
    }
}

/// The fields of `fields` in one line, with a tab between each two.
pub fn join_tabs(fields: &Vec<String>) -> (line: String)
    ensures
        line@ == join(texts(fields@), '\t'),
{
    let ghost pieces = texts(fields@);
    let mut line = String::new();
    let mut i: usize = 0;
    while i < fields.len()
        invariant
            i <= fields.len(),
            pieces == texts(fields@),
            line@ == join(pieces.take(i as int), '\t'),
        decreases fields.len() - i,
    {
        proof {
            reveal_strlit("\t");
            assert(pieces.take(i + 1).drop_last() =~= pieces.take(i as int));
        }
        if i > 0 {
            line.append("\t");
        }
        line.append(fields[i].as_str());
        proof {
            if i == 0 {
                assert(line@ =~= pieces[0]);
            }
        }
        i = i + 1;
    }
    assert(pieces.take(i as int) =~= pieces);
    line
}

impl FoundAlbum {
    /// The fields under which this album is shown, in their order.
    pub fn display_fields(&self, include_playlist_name: bool) -> (fields: Vec<String>)
        ensures
            texts(fields@) == display_fields(self@, include_playlist_name),
    {
        let mut tracks = String::new();
        push_decimal(&mut tracks, self.tracks as u64);
        let mut fields: Vec<String> = Vec::new();
        fields.push(self.artists.clone());
        fields.push(self.album.clone());
        fields.push(tracks);
        fields.push(self.year_released.clone());
        fields.push(self.date_added.clone());
        if include_playlist_name {
            fields.push(self.playlist.clone());
        }
        assert(texts(fields@) =~= display_fields(self@, include_playlist_name));
        fields
    }

    /// This album as one line of tab-separated text: the fields under which
    /// it is shown, with a tab between each two.
    pub fn to_tsv(&self, include_playlist_name: bool) -> (line: String)
        ensures
            line@ == join(display_fields(self@, include_playlist_name), '\t'),
    {
        let fields = self.display_fields(include_playlist_name);
        join_tabs(&fields)
    }
}

} // verus!
