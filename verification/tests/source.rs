use album_archive::sync::data::AlbumTsv;
use album_archive::sync::error::StoreError;
use album_archive::sync::sqlite::get_the_most_recent_starred_albums;
use album_archive::sync::sqlite::StarredRow;
use album_archive::sync::sqlite::PAGE_SIZE;
use album_archive::sync::sqlite::SELECT_STARRED_ALBUMS;

fn row(artists: &str, album: &str, tracks: u16, year: &str, added: &str, playlist: &str) -> StarredRow {
    StarredRow {
        artists: artists.to_string(),
        album: album.to_string(),
        track_count: tracks,
        release_date: year.to_string(),
        added_at: added.to_string(),
        playlist: playlist.to_string(),
    }
}

#[test]
fn page_size_is_twenty_five() {
    assert_eq!(PAGE_SIZE, 25);
}

#[test]
fn query_is_paged_and_restricted_to_starred_playlists() {
    assert!(SELECT_STARRED_ALBUMS.contains("where p.name like 'starred%'"));
    assert!(SELECT_STARRED_ALBUMS.contains("order by added_at DESC"));
    assert!(SELECT_STARRED_ALBUMS.ends_with("limit :limit OFFSET :offset"));
    assert!(SELECT_STARRED_ALBUMS.contains("substr(a.release_date, 1, 4)"));
    assert!(SELECT_STARRED_ALBUMS.contains("GROUP_CONCAT(artist, '; ')"));
}

#[test]
fn row_becomes_an_album() {
    let album = row("Artist A; Artist B", "Album X", 10, "2020", "2021-01-01", "starred").to_album();
    let entry = album.map(|a| a.to_tsv_entry());
    assert_eq!(
        entry,
        Some(AlbumTsv {
            artists: "Artist A; Artist B".to_string(),
            album: "Album X".to_string(),
            tracks: 10,
            year: 2020,
            date_added: "2021-01-01".to_string(),
            playlist: "starred".to_string(),
        })
    );
}

#[test]
fn row_with_a_bad_year_is_no_album() {
    assert!(row("A", "B", 1, "", "d", "p").to_album().is_none());
    assert!(row("A", "B", 1, "20O0", "d", "p").to_album().is_none());
}

#[test]
fn rows_become_records_in_order() {
    let rows = vec![
        row("Artist B", "Album Y", 5, "2022", "2023-05-01", "starred"),
        row("Artist A", "Album X", 10, "2020", "2021-01-01", "starred old"),
    ];
    let page = get_the_most_recent_starred_albums(&rows);
    assert_eq!(
        page,
        Ok(vec![
            AlbumTsv {
                artists: "Artist B".to_string(),
                album: "Album Y".to_string(),
                tracks: 5,
                year: 2022,
                date_added: "2023-05-01".to_string(),
                playlist: "starred".to_string(),
            },
            AlbumTsv {
                artists: "Artist A".to_string(),
                album: "Album X".to_string(),
                tracks: 10,
                year: 2020,
                date_added: "2021-01-01".to_string(),
                playlist: "starred old".to_string(),
            },
        ])
    );
}

#[test]
fn no_rows_are_an_empty_page() {
    assert_eq!(get_the_most_recent_starred_albums(&Vec::new()), Ok(Vec::new()));
}

#[test]
fn bad_year_fails_the_page_at_the_first_such_row() {
    let rows = vec![
        row("Artist B", "Album Y", 5, "2022", "2023-05-01", "starred"),
        row("Artist A", "Album X", 10, "n/a", "2021-01-01", "starred"),
        row("Artist C", "Album Z", 3, "", "2020-01-01", "starred"),
    ];
    assert_eq!(get_the_most_recent_starred_albums(&rows), Err(StoreError::Year { row: 1 }));
}
