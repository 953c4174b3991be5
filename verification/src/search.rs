//! Catalogue search: the query, its results, and the backends that answer it.

pub mod data;
pub mod db_search;

use crate::search::data::SortOrder;
use vstd::prelude::*;

verus! {

/// What a search asks for and how its results are to be shown.
#[derive(Debug)]
pub struct SearchQuery {
    /// The words to look for.
    pub terms: Vec<String>,
    /// The order in which the results are wanted.
    pub sort: SortOrder,
    /// Whether a header goes ahead of the results.
    pub include_header: bool,
    /// Whether the playlist's name is shown with each result.
    pub include_playlist_name: bool,
    /// Whether the search reports what it does.
    pub verbose: bool,
}

/// Why a search gave no results.
#[derive(Debug, Clone, Copy, PartialEq, Eq, Structural)]
pub enum SearchError {
    /// The backend that was asked cannot answer queries.
    NoBackend,
}

} // verus!
