//! A personal music-catalogue archive: newly starred albums are carried from a
//! paginated source catalogue into a flat, tab-separated record file, newest
//! first, without ever archiving an album twice. Beside it stands the text
//! side of catalogue search: what is shown for a set of search results.

pub mod output;
pub mod search;
pub mod sync;
