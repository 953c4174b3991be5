//! What can go wrong in a run, and on which side.

use crate::sync::data::AlbumTsv;
use crate::sync::data::AlbumTsvView;
use vstd::prelude::*;

verus! {

/// Why a line of the archive is not a record.
#[derive(Debug, Clone, Copy, PartialEq, Eq, Structural)]
pub enum FormatError {
    /// The text holds a line break, so it is not a single line.
    LineBreak,
    /// The line does not have exactly six tab-separated fields.
    FieldCount,
    /// The third field is not a track count.
    TrackCount,
    /// The fourth field is not a year.
    Year,
}

/// Why the source catalogue gave no page.
#[derive(Debug, PartialEq, Eq)]
pub enum StoreError {
    /// The store could not be opened or the query could not be run; the
    /// text says why.
    Query(String),
    /// The release year of the row at this place in the page is not a
    /// number. Such a row is never skipped.
    Year { row: usize },
}

/// Why a run failed. A run that fails leaves the archive as it was.
#[derive(Debug, PartialEq, Eq)]
pub enum SyncError {
    /// The source catalogue failed while the page at `offset` was fetched.
    Store { offset: usize, cause: StoreError },
    /// The first line of the archive is not a record.
    Format(FormatError),
    /// The archive is absent or empty: there is no record to anchor on.
    NotFound,
    /// The anchor was not among the `examined` newest source records.
    BoundaryNotFound { anchor: AlbumTsv, examined: usize },
}

/// A `StoreError` as mathematical values.
pub enum StoreErrorView {
    Query(Seq<char>),
    Year { row: usize },
}

/// A `SyncError` as mathematical values.
pub enum SyncErrorView {
    Store { offset: usize, cause: StoreErrorView },
    Format(FormatError),
    NotFound,
    BoundaryNotFound { anchor: AlbumTsvView, examined: usize },
}

impl View for StoreError {
    type V = StoreErrorView;

    open spec fn view(&self) -> StoreErrorView {
        match *self {
            StoreError::Query(detail) => StoreErrorView::Query(detail@),
            StoreError::Year { row } => StoreErrorView::Year { row },
        }
    }
}

impl View for SyncError {
    type V = SyncErrorView;

    open spec fn view(&self) -> SyncErrorView {
        match *self {
            SyncError::Store { offset, cause } => SyncErrorView::Store { offset, cause: cause@ },
            SyncError::Format(e) => SyncErrorView::Format(e),
            SyncError::NotFound => SyncErrorView::NotFound,
            SyncError::BoundaryNotFound { anchor, examined } => SyncErrorView::BoundaryNotFound {
                anchor: anchor@,
                examined,
            },
        }
    }
}

} // verus!
