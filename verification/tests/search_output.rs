use album_archive::output::get_header_fields;
use album_archive::output::no_results;
use album_archive::output::no_results_message;
use album_archive::output::search_summary;
use album_archive::output::summary_message;
use album_archive::output::Output;
use album_archive::output::Piece;
use album_archive::output::Span;
use album_archive::output::TableContent;
use album_archive::output::Tint;
use album_archive::output::RIGHT_ALIGNED_COLUMN;
use album_archive::search::data::join_tabs;
use album_archive::search::data::FoundAlbum;
use album_archive::search::data::SearchResults;
use album_archive::search::data::SortOrder;
use album_archive::search::db_search::search;
use album_archive::search::SearchError;
use album_archive::search::SearchQuery;

fn found(artists: &str, album: &str, tracks: u16, year: &str, added: &str, playlist: &str) -> FoundAlbum {
    FoundAlbum {
        artists: artists.to_string(),
        album: album.to_string(),
        tracks,
        year_released: year.to_string(),
        date_added: added.to_string(),
        playlist: playlist.to_string(),
    }
}

fn results(albums: Vec<FoundAlbum>, header: bool, playlist: bool) -> SearchResults {
    SearchResults {
        results: albums,
        search_term: "abba".to_string(),
        sort: SortOrder::Added,
        include_header: header,
        include_playlist_name: playlist,
    }
}

fn two_albums() -> Vec<FoundAlbum> {
    vec![
        found("ABBA", "Arrival", 10, "1976", "2021-01-01", "starred"),
        found("ABBA", "Voulez-Vous", 13, "1979", "2021-02-01", "starred 2"),
    ]
}

fn strings(cells: &[&str]) -> Vec<String> {
    cells.iter().map(|c| c.to_string()).collect()
}

const SUMMARY_OF_TWO: &str = "\u{1b}[39m\t--- \u{1b}[1;38;5;12m2\u{1b}[0m\u{1b}[39m results found for \u{1b}[1;38;5;205mabba\u{1b}[0m\u{1b}[39m, sort: \u{1b}[1;38;5;99mAdded\u{1b}[0m\u{1b}[39m ---\n\u{1b}[0m";

const NOTHING_FOUND: &str = "\u{1b}[38;5;208m\t--- No results found for \u{1b}[1;38;5;205mabba\u{1b}[0m\u{1b}[38;5;208m ---\n\u{1b}[0m";

#[test]
fn header_fields_with_and_without_playlist() {
    assert_eq!(
        get_header_fields(true),
        vec!["Artists", "Album", "Tracks", "Year", "Date Added", "Playlist"]
    );
    assert_eq!(get_header_fields(false), vec!["Artists", "Album", "Tracks", "Year", "Date Added"]);
}

#[test]
fn tracks_column_is_the_third() {
    assert_eq!(RIGHT_ALIGNED_COLUMN, 2);
    assert_eq!(get_header_fields(false)[RIGHT_ALIGNED_COLUMN], "Tracks");
}

#[test]
fn sort_orders_have_their_names() {
    assert_eq!(SortOrder::Added.name(), "Added");
    assert_eq!(SortOrder::Artist.name(), "Artist");
    assert_eq!(SortOrder::Album.name(), "Album");
    assert_eq!(SortOrder::Year.name(), "Year");
    assert_eq!(format!("{:?}", SortOrder::Year), SortOrder::Year.name());
}

#[test]
fn fields_are_joined_by_tabs() {
    assert_eq!(join_tabs(&strings(&["a", "b", "c"])), "a\tb\tc");
    assert_eq!(join_tabs(&strings(&["only"])), "only");
    assert_eq!(join_tabs(&strings(&["", ""])), "\t");
    assert_eq!(join_tabs(&Vec::new()), "");
}

#[test]
fn found_album_is_shown_under_five_or_six_fields() {
    let album = found("ABBA", "Arrival", 10, "1976", "2021-01-01", "starred");
    assert_eq!(album.display_fields(false), strings(&["ABBA", "Arrival", "10", "1976", "2021-01-01"]));
    assert_eq!(
        album.display_fields(true),
        strings(&["ABBA", "Arrival", "10", "1976", "2021-01-01", "starred"])
    );
    assert_eq!(album.to_tsv(false), "ABBA\tArrival\t10\t1976\t2021-01-01");
    assert_eq!(album.to_tsv(true), "ABBA\tArrival\t10\t1976\t2021-01-01\tstarred");
}

#[test]
fn no_results_message_names_the_term() {
    let spans = no_results_message(&results(Vec::new(), true, true));
    assert_eq!(
        spans,
        vec![
            Span { text: "\t--- No results found for ".to_string(), tint: Tint::Fixed(208), bold: false },
            Span { text: "abba".to_string(), tint: Tint::Fixed(205), bold: true },
            Span { text: " ---\n".to_string(), tint: Tint::Fixed(208), bold: false },
        ]
    );
}

#[test]
fn summary_message_counts_the_results() {
    let spans = summary_message(&results(two_albums(), true, true));
    assert_eq!(
        spans,
        vec![
            Span { text: "\t--- ".to_string(), tint: Tint::Default, bold: false },
            Span { text: "2".to_string(), tint: Tint::Fixed(12), bold: true },
            Span { text: " results found for ".to_string(), tint: Tint::Default, bold: false },
            Span { text: "abba".to_string(), tint: Tint::Fixed(205), bold: true },
            Span { text: ", sort: ".to_string(), tint: Tint::Default, bold: false },
            Span { text: "Added".to_string(), tint: Tint::Fixed(99), bold: true },
            Span { text: " ---\n".to_string(), tint: Tint::Default, bold: false },
        ]
    );
}

#[test]
fn no_results_notice_is_painted() {
    assert_eq!(no_results(&results(Vec::new(), false, false)), NOTHING_FOUND);
}

#[test]
fn summary_notice_is_painted() {
    assert_eq!(search_summary(&results(two_albums(), false, false)), SUMMARY_OF_TWO);
}

#[test]
fn plain_output_of_no_results_is_the_notice_alone() {
    assert_eq!(
        Output::search_results(&results(Vec::new(), true, true)),
        vec![Piece::Notice(NOTHING_FOUND.to_string())]
    );
}

#[test]
fn plain_output_has_summary_header_and_lines() {
    assert_eq!(
        Output::search_results(&results(two_albums(), true, true)),
        vec![
            Piece::Notice(SUMMARY_OF_TWO.to_string()),
            Piece::Line("Artists\tAlbum\tTracks\tYear\tDate Added\tPlaylist".to_string()),
            Piece::Line("ABBA\tArrival\t10\t1976\t2021-01-01\tstarred".to_string()),
            Piece::Line("ABBA\tVoulez-Vous\t13\t1979\t2021-02-01\tstarred 2".to_string()),
        ]
    );
}

#[test]
fn plain_output_without_header_or_playlist() {
    assert_eq!(
        Output::search_results(&results(two_albums(), false, false)),
        vec![
            Piece::Notice(SUMMARY_OF_TWO.to_string()),
            Piece::Line("ABBA\tArrival\t10\t1976\t2021-01-01".to_string()),
            Piece::Line("ABBA\tVoulez-Vous\t13\t1979\t2021-02-01".to_string()),
        ]
    );
}

#[test]
fn table_output_of_no_results_is_the_notice_alone() {
    assert_eq!(
        Output::search_results_table(&results(Vec::new(), true, true), true),
        vec![Piece::Notice(NOTHING_FOUND.to_string())]
    );
    assert_eq!(
        Output::search_results_table(&results(Vec::new(), true, true), false),
        vec![Piece::Notice(NOTHING_FOUND.to_string())]
    );
}

#[test]
fn table_output_on_a_terminal_is_table_then_summary() {
    let table = TableContent {
        header: Some(strings(&["Artists", "Album", "Tracks", "Year", "Date Added"])),
        rows: vec![
            strings(&["ABBA", "Arrival", "10", "1976", "2021-01-01"]),
            strings(&["ABBA", "Voulez-Vous", "13", "1979", "2021-02-01"]),
        ],
    };
    assert_eq!(
        Output::search_results_table(&results(two_albums(), true, false), true),
        vec![Piece::Table(table), Piece::Notice(SUMMARY_OF_TWO.to_string())]
    );
}

#[test]
fn table_output_off_a_terminal_has_the_summary_twice() {
    let table = TableContent {
        header: None,
        rows: vec![
            strings(&["ABBA", "Arrival", "10", "1976", "2021-01-01", "starred"]),
            strings(&["ABBA", "Voulez-Vous", "13", "1979", "2021-02-01", "starred 2"]),
        ],
    };
    assert_eq!(
        Output::search_results_table(&results(two_albums(), false, true), false),
        vec![
            Piece::Notice(SUMMARY_OF_TWO.to_string()),
            Piece::Table(table),
            Piece::Notice(SUMMARY_OF_TWO.to_string()),
        ]
    );
}

#[test]
fn database_search_is_turned_down() {
    let query = SearchQuery {
        terms: strings(&["abba", "arrival"]),
        sort: SortOrder::Artist,
        include_header: true,
        include_playlist_name: false,
        verbose: true,
    };
    assert!(matches!(search(&query), Err(SearchError::NoBackend)));
}
