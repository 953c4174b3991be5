use album_archive::sync::data::AlbumTsv;
use album_archive::sync::error::FormatError;
use album_archive::sync::error::StoreError;
use album_archive::sync::error::SyncError;
use album_archive::sync::run::sync;
use album_archive::sync::run::SyncOutcome;
use album_archive::sync::start;
use album_archive::sync::step;
use album_archive::sync::SyncAction;
use album_archive::sync::SyncEvent;
use album_archive::sync::SyncState;
use album_archive::sync::MAX_LOOKBACK;

fn record(artists: &str, album: &str, tracks: u16, year: i32, added: &str, playlist: &str) -> AlbumTsv {
    AlbumTsv {
        artists: artists.to_string(),
        album: album.to_string(),
        tracks,
        year,
        date_added: added.to_string(),
        playlist: playlist.to_string(),
    }
}

fn numbered(n: usize) -> AlbumTsv {
    record("Artist", &format!("Album {}", n), 1, 2000, &format!("day {}", n), "starred")
}

fn numbered_source(len: usize) -> Vec<AlbumTsv> {
    (0..len).map(numbered).collect()
}

fn archive_of(r: &AlbumTsv) -> String {
    format!("{}\n", r.to_line())
}

/// Drives the state machine over a source that answers with pages of
/// `page_size`, and counts the queries. Returns the last action and the
/// offsets that were asked for.
fn drive(destination: Option<&str>, source: &[AlbumTsv], page_size: usize) -> (SyncAction, Vec<usize>) {
    let (mut state, mut action) = start();
    let mut offsets = Vec::new();
    loop {
        let event = match action {
            SyncAction::ReadDestination => SyncEvent::Destination(destination.map(|t| t.to_string())),
            SyncAction::FetchPage { offset } => {
                offsets.push(offset);
                let from = offset.min(source.len());
                let to = (from + page_size).min(source.len());
                SyncEvent::Fetched(Ok(source[from..to].to_vec()))
            }
            last => return (last, offsets),
        };
        let (s, a) = step(state, event);
        state = s;
        action = a;
    }
}

const ANCHOR_LINE: &str = "Artist A\tAlbum X\t10\t2020\t2021-01-01\tstarred";

fn album_x() -> AlbumTsv {
    record("Artist A", "Album X", 10, 2020, "2021-01-01", "starred")
}

fn album_y() -> AlbumTsv {
    record("Artist B", "Album Y", 5, 2022, "2023-05-01", "starred")
}

fn album_z() -> AlbumTsv {
    record("Artist C", "Album Z", 7, 2019, "2020-03-03", "starred")
}

#[test]
fn lookback_is_one_hundred() {
    assert_eq!(MAX_LOOKBACK, 100);
}

#[test]
fn run_begins_by_reading_the_archive() {
    let (state, action) = start();
    assert!(matches!(state, SyncState::Anchor));
    assert_eq!(action, SyncAction::ReadDestination);
}

#[test]
fn one_new_album_is_added_ahead_of_the_anchor() {
    let source = vec![album_y(), album_x(), album_z()];
    let outcome = sync(Some(ANCHOR_LINE), &source);
    assert_eq!(
        outcome,
        Ok(SyncOutcome::Added {
            albums: vec![album_y()],
            destination: "Artist B\tAlbum Y\t5\t2022\t2023-05-01\tstarred\nArtist A\tAlbum X\t10\t2020\t2021-01-01\tstarred".to_string(),
        })
    );
}

#[test]
fn records_after_the_anchor_are_never_examined() {
    let (_, first) = start();
    assert_eq!(first, SyncAction::ReadDestination);
    let (state, action) = step(SyncState::Anchor, SyncEvent::Destination(Some(ANCHOR_LINE.to_string())));
    assert_eq!(action, SyncAction::FetchPage { offset: 0 });
    let (state, action) = step(state, SyncEvent::Fetched(Ok(vec![album_y(), album_x(), album_z()])));
    assert!(matches!(state, SyncState::Resolved));
    assert_eq!(action, SyncAction::Append(vec![album_y()]));
}

#[test]
fn absent_destination_fails_with_not_found() {
    assert_eq!(sync(None, &vec![album_y(), album_x()]), Err(SyncError::NotFound));
    let (state, action) = step(SyncState::Anchor, SyncEvent::Destination(None));
    assert!(matches!(state, SyncState::Resolved));
    assert_eq!(action, SyncAction::Fail(SyncError::NotFound));
    let (last, offsets) = drive(None, &[album_y(), album_x()], 25);
    assert_eq!(last, SyncAction::Fail(SyncError::NotFound));
    assert!(offsets.is_empty());
}

#[test]
fn empty_destination_fails_with_not_found() {
    assert_eq!(sync(Some(""), &vec![album_x()]), Err(SyncError::NotFound));
}

#[test]
fn malformed_anchor_fails_with_format_error() {
    assert_eq!(
        sync(Some("not a record\n"), &vec![album_x()]),
        Err(SyncError::Format(FormatError::FieldCount))
    );
}

#[test]
fn empty_page_before_the_anchor_is_boundary_not_found() {
    let source = vec![album_y(), album_z()];
    assert_eq!(
        sync(Some(ANCHOR_LINE), &source),
        Err(SyncError::BoundaryNotFound { anchor: album_x(), examined: 2 })
    );
    let (last, offsets) = drive(Some(ANCHOR_LINE), &source, 25);
    assert_eq!(last, SyncAction::Fail(SyncError::BoundaryNotFound { anchor: album_x(), examined: 2 }));
    assert_eq!(offsets, vec![0, 2]);
}

#[test]
fn empty_source_is_boundary_not_found_not_up_to_date() {
    assert_eq!(
        sync(Some(ANCHOR_LINE), &Vec::new()),
        Err(SyncError::BoundaryNotFound { anchor: album_x(), examined: 0 })
    );
    let (state, _) = step(SyncState::Anchor, SyncEvent::Destination(Some(ANCHOR_LINE.to_string())));
    let (state, action) = step(state, SyncEvent::Fetched(Ok(Vec::new())));
    assert!(matches!(state, SyncState::Resolved));
    assert_eq!(action, SyncAction::Fail(SyncError::BoundaryNotFound { anchor: album_x(), examined: 0 }));
}

#[test]
fn anchor_on_top_is_up_to_date() {
    let source = vec![album_x(), album_z()];
    assert_eq!(sync(Some(ANCHOR_LINE), &source), Ok(SyncOutcome::UpToDate));
    let (last, offsets) = drive(Some(ANCHOR_LINE), &source, 25);
    assert_eq!(last, SyncAction::UpToDate);
    assert_eq!(offsets, vec![0]);
}

#[test]
fn second_run_is_up_to_date_and_changes_nothing() {
    let source = vec![album_z(), album_y(), album_x()];
    let old = format!("{}\n", ANCHOR_LINE);
    let after_first = match sync(Some(&old), &source) {
        Ok(SyncOutcome::Added { albums, destination }) => {
            assert_eq!(albums, vec![album_z(), album_y()]);
            destination
        }
        other => panic!("first run: {:?}", other),
    };
    assert_eq!(sync(Some(&after_first), &source), Ok(SyncOutcome::UpToDate));
}

#[test]
fn added_records_come_first_and_old_lines_stay() {
    let source = numbered_source(40);
    let old = format!("{}\nolder line 1\nolder line 2\n", numbered(3).to_line());
    match sync(Some(&old), &source) {
        Ok(SyncOutcome::Added { albums, destination }) => {
            assert_eq!(albums, vec![numbered(0), numbered(1), numbered(2)]);
            let lines: Vec<&str> = destination.lines().collect();
            assert_eq!(lines.len(), 6);
            assert_eq!(lines[0], numbered(0).to_line());
            assert_eq!(lines[1], numbered(1).to_line());
            assert_eq!(lines[2], numbered(2).to_line());
            assert_eq!(lines[3], numbered(3).to_line());
            assert_eq!(lines[4], "older line 1");
            assert_eq!(lines[5], "older line 2");
            assert!(destination.ends_with(&old));
        }
        other => panic!("{:?}", other),
    }
}

#[test]
fn anchor_at_place_k_of_the_first_page_adds_k_records_in_one_query() {
    let source = numbered_source(60);
    for k in [0usize, 1, 7, 24] {
        let archive = archive_of(&numbered(k));
        let (last, offsets) = drive(Some(&archive), &source, 25);
        assert_eq!(offsets, vec![0], "k = {}", k);
        if k == 0 {
            assert_eq!(last, SyncAction::UpToDate);
        } else {
            assert_eq!(last, SyncAction::Append(numbered_source(k)));
        }
    }
}

#[test]
fn anchor_on_a_later_page_is_found_page_by_page() {
    let source = numbered_source(120);
    let archive = archive_of(&numbered(60));
    let (last, offsets) = drive(Some(&archive), &source, 25);
    assert_eq!(offsets, vec![0, 25, 50]);
    assert_eq!(last, SyncAction::Append(numbered_source(60)));
    match sync(Some(&archive), &source) {
        Ok(SyncOutcome::Added { albums, .. }) => assert_eq!(albums, numbered_source(60)),
        other => panic!("{:?}", other),
    }
}

#[test]
fn last_place_within_the_lookback_is_still_found() {
    let source = numbered_source(150);
    let archive = archive_of(&numbered(99));
    let (last, offsets) = drive(Some(&archive), &source, 25);
    assert_eq!(offsets, vec![0, 25, 50, 75]);
    assert_eq!(last, SyncAction::Append(numbered_source(99)));
}

#[test]
fn anchor_beyond_the_lookback_fails_after_one_hundred_records() {
    let source = numbered_source(150);
    let archive = archive_of(&numbered(100));
    let (last, offsets) = drive(Some(&archive), &source, 25);
    assert_eq!(offsets, vec![0, 25, 50, 75]);
    assert_eq!(last, SyncAction::Fail(SyncError::BoundaryNotFound { anchor: numbered(100), examined: 100 }));
    assert_eq!(
        sync(Some(&archive), &source),
        Err(SyncError::BoundaryNotFound { anchor: numbered(100), examined: 100 })
    );
}

#[test]
fn anchor_missing_from_a_short_source_names_what_was_examined() {
    let source = numbered_source(30);
    let archive = archive_of(&numbered(500));
    let (last, offsets) = drive(Some(&archive), &source, 25);
    assert_eq!(offsets, vec![0, 25, 30]);
    assert_eq!(last, SyncAction::Fail(SyncError::BoundaryNotFound { anchor: numbered(500), examined: 30 }));
    assert_eq!(
        sync(Some(&archive), &source),
        Err(SyncError::BoundaryNotFound { anchor: numbered(500), examined: 30 })
    );
}

#[test]
fn source_of_exactly_one_hundred_is_not_asked_a_fifth_time() {
    let source = numbered_source(100);
    let archive = archive_of(&numbered(500));
    let (last, offsets) = drive(Some(&archive), &source, 25);
    assert_eq!(offsets, vec![0, 25, 50, 75]);
    assert_eq!(last, SyncAction::Fail(SyncError::BoundaryNotFound { anchor: numbered(500), examined: 100 }));
}

#[test]
fn store_failure_ends_the_run_with_the_offset() {
    let (state, _) = step(SyncState::Anchor, SyncEvent::Destination(Some(ANCHOR_LINE.to_string())));
    let (state, action) = step(state, SyncEvent::Fetched(Ok(vec![album_y(), album_z()])));
    assert_eq!(action, SyncAction::FetchPage { offset: 2 });
    let (state, action) = step(state, SyncEvent::Fetched(Err(StoreError::Query("no such table".to_string()))));
    assert!(matches!(state, SyncState::Resolved));
    assert_eq!(
        action,
        SyncAction::Fail(SyncError::Store { offset: 2, cause: StoreError::Query("no such table".to_string()) })
    );
}

#[test]
fn bad_year_in_a_page_ends_the_run() {
    let (state, _) = step(SyncState::Anchor, SyncEvent::Destination(Some(ANCHOR_LINE.to_string())));
    let (_, action) = step(state, SyncEvent::Fetched(Err(StoreError::Year { row: 3 })));
    assert_eq!(action, SyncAction::Fail(SyncError::Store { offset: 0, cause: StoreError::Year { row: 3 } }));
}

#[test]
fn event_out_of_turn_changes_nothing() {
    let (state, action) = step(SyncState::Anchor, SyncEvent::Fetched(Ok(vec![album_x()])));
    assert!(matches!(state, SyncState::Anchor));
    assert_eq!(action, SyncAction::ReadDestination);

    let (state, _) = step(state, SyncEvent::Destination(Some(ANCHOR_LINE.to_string())));
    let (state, _) = step(state, SyncEvent::Fetched(Ok(vec![album_y()])));
    let (state, action) = step(state, SyncEvent::Destination(None));
    assert_eq!(action, SyncAction::FetchPage { offset: 1 });
    match &state {
        SyncState::Paging { anchor, examined, to_add } => {
            assert_eq!(*anchor, album_x());
            assert_eq!(*examined, 1);
            assert_eq!(*to_add, vec![album_y()]);
        }
        other => panic!("{:?}", other),
    }

    let (state, _) = step(state, SyncEvent::Fetched(Ok(vec![album_x()])));
    let (state, action) = step(state, SyncEvent::Fetched(Ok(vec![album_z()])));
    assert!(matches!(state, SyncState::Resolved));
    assert_eq!(action, SyncAction::Stop);
    let (_, action) = step(state, SyncEvent::Destination(Some(ANCHOR_LINE.to_string())));
    assert_eq!(action, SyncAction::Stop);
}

#[test]
fn records_differing_in_one_field_are_not_the_anchor() {
    let mut renamed = album_x();
    renamed.playlist = "starred 2021".to_string();
    let source = vec![album_y(), renamed.clone()];
    assert_eq!(
        sync(Some(ANCHOR_LINE), &source),
        Err(SyncError::BoundaryNotFound { anchor: album_x(), examined: 2 })
    );
}

#[test]
fn first_of_two_equal_records_is_the_boundary() {
    let source = vec![album_y(), album_x(), album_z(), album_x()];
    match sync(Some(ANCHOR_LINE), &source) {
        Ok(SyncOutcome::Added { albums, .. }) => assert_eq!(albums, vec![album_y()]),
        other => panic!("{:?}", other),
    }
}

#[test]
fn short_pages_are_counted_as_they_come() {
    let source = numbered_source(10);
    let archive = archive_of(&numbered(9));
    let (last, offsets) = drive(Some(&archive), &source, 4);
    assert_eq!(offsets, vec![0, 4, 8]);
    assert_eq!(last, SyncAction::Append(numbered_source(9)));
}
