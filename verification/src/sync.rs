//! Synchronisation of the archive with the source catalogue.
//!
//! A run finds, in the source's newest-first stream of starred albums, the
//! place of the archive's most recent record (the anchor), and adds to the
//! archive what stands before it. The search reads the source page by page,
//! knows nothing but equality with the anchor, and gives up once
//! `MAX_LOOKBACK` records have been examined.
//!
//! The decisions of a run are the state machine `step`; reading the archive,
//! querying the source and writing the archive are left to the caller, who
//! performs each `SyncAction` and hands back the `SyncEvent` that came of it.

pub mod data;
pub mod decimal;
pub mod error;
pub mod run;
pub mod scan;
pub mod sqlite;
pub mod tsv;

use crate::sync::data::AlbumTsv;
use crate::sync::data::AlbumTsvView;
use crate::sync::error::StoreError;
use crate::sync::error::StoreErrorView;
use crate::sync::error::SyncError;
use crate::sync::error::SyncErrorView;
use crate::sync::scan::first_index;
use crate::sync::scan::lemma_first_index;
use crate::sync::scan::lemma_first_index_is;
use crate::sync::tsv::get_last_album_added;
use crate::sync::tsv::last_added;
use vstd::prelude::*;

verus! {

/// The number of source records after which a run gives up the search for
/// the anchor.
pub const MAX_LOOKBACK: usize = 100;

/// Where a run stands.
#[derive(Debug)]
pub enum SyncState {
    /// The archive's most recent record is not known yet.
    Anchor,
    /// The anchor is known and was not among the `examined` source records
    /// seen so far, which are kept in `to_add`, newest first.
    Paging { anchor: AlbumTsv, examined: usize, to_add: Vec<AlbumTsv> },
    /// The run is over.
    Resolved,
}

/// What the caller reports back to a run.
#[derive(Debug)]
pub enum SyncEvent {
    /// The archive's text was read; `None` where there is no archive.
    Destination(Option<String>),
    /// A page of the source was asked for: the page, or why there is none.
    Fetched(Result<Vec<AlbumTsv>, StoreError>),
}

/// What a run asks of the caller.
#[derive(Debug, PartialEq, Eq)]
pub enum SyncAction {
    /// Read the archive's text and report it.
    ReadDestination,
    /// Ask the source for the page that begins `offset` records from the
    /// newest, and report it.
    FetchPage { offset: usize },
    /// The run succeeded: add these records ahead of the archive's text, in
    /// this order.
    Append(Vec<AlbumTsv>),
    /// The run succeeded and the archive is up to date: leave it as it is.
    UpToDate,
    /// The run failed: leave the archive as it is.
    Fail(SyncError),
    /// The run was over before this event: there is nothing to do.
    Stop,
}

/// A `SyncState` as mathematical values.
pub enum SyncStateView {
    Anchor,
    Paging { anchor: AlbumTsvView, examined: usize, to_add: Seq<AlbumTsvView> },
    Resolved,
}

/// A `SyncEvent` as mathematical values.
pub enum SyncEventView {
    Destination(Option<Seq<char>>),
    Fetched(Result<Seq<AlbumTsvView>, StoreErrorView>),
}

/// A `SyncAction` as mathematical values.
pub enum SyncActionView {
    ReadDestination,
    FetchPage { offset: usize },
    Append(Seq<AlbumTsvView>),
    UpToDate,
    Fail(SyncErrorView),
    Stop,
}

impl View for SyncState {
    type V = SyncStateView;

    open spec fn view(&self) -> SyncStateView {
        match *self {
            SyncState::Anchor => SyncStateView::Anchor,
            SyncState::Paging { anchor, examined, to_add } => SyncStateView::Paging {
                anchor: anchor@,
                examined,
                to_add: to_add.deep_view(),
            },
            SyncState::Resolved => SyncStateView::Resolved,
        }
    }
}

impl View for SyncEvent {
    type V = SyncEventView;

    open spec fn view(&self) -> SyncEventView {
        match *self {
            SyncEvent::Destination(Some(text)) => SyncEventView::Destination(Some(text@)),
            SyncEvent::Destination(None) => SyncEventView::Destination(None),
            SyncEvent::Fetched(Ok(page)) => SyncEventView::Fetched(Ok(page.deep_view())),
            SyncEvent::Fetched(Err(cause)) => SyncEventView::Fetched(Err(cause@)),
        }
    }
}

impl View for SyncAction {
    type V = SyncActionView;

    open spec fn view(&self) -> SyncActionView {
        match *self {
            SyncAction::ReadDestination => SyncActionView::ReadDestination,
            SyncAction::FetchPage { offset } => SyncActionView::FetchPage { offset },
            SyncAction::Append(albums) => SyncActionView::Append(albums.deep_view()),
            SyncAction::UpToDate => SyncActionView::UpToDate,
            SyncAction::Fail(e) => SyncActionView::Fail(e@),
            SyncAction::Stop => SyncActionView::Stop,
        }
    }
}

/// What a run does with a page, having examined `examined` records before
/// it and kept them in `to_add`.
///
/// The page is read in its order. At the first record equal to the anchor
/// the search is over: what was kept, and what stands before the anchor on
/// this page, is to be added, and the rest of the page is not looked at.
/// A page without the anchor is kept whole; the run then fails if the page
/// was empty or the lookback is used up, and asks for the next page otherwise.
pub open spec fn scan_page(
    anchor: AlbumTsvView,
    examined: usize,
    to_add: Seq<AlbumTsvView>,
    page: Seq<AlbumTsvView>,
) -> (SyncStateView, SyncActionView) {
    let k = first_index(page, anchor);
    let total = (examined + page.len()) as usize;
    if k < page.len() {
        let albums = to_add + page.take(k);
        if albums.len() == 0 {
            (SyncStateView::Resolved, SyncActionView::UpToDate)
        } else {
            (SyncStateView::Resolved, SyncActionView::Append(albums))
        }
    } else if page.len() == 0 || total >= MAX_LOOKBACK {
        (
            SyncStateView::Resolved,
            SyncActionView::Fail(SyncErrorView::BoundaryNotFound { anchor, examined: total }),
        )
    } else {
        (
            SyncStateView::Paging { anchor, examined: total, to_add: to_add + page },
            SyncActionView::FetchPage { offset: total },
        )
    }
}

/// The state that follows `state` on `event`, and what the run asks next.
///
/// An event that the state does not wait for changes nothing: the run asks
/// again for what it waits for, and a run that is over asks for nothing.
pub open spec fn next(state: SyncStateView, event: SyncEventView) -> (
    SyncStateView,
    SyncActionView,
) {
    match state {
        SyncStateView::Anchor => match event {
            SyncEventView::Destination(contents) => match last_added(contents) {
                Ok(anchor) => (
                    SyncStateView::Paging { anchor, examined: 0, to_add: Seq::empty() },
                    SyncActionView::FetchPage { offset: 0 },
                ),
                Err(e) => (SyncStateView::Resolved, SyncActionView::Fail(e)),
            },
            SyncEventView::Fetched(_) => (state, SyncActionView::ReadDestination),
        },
        SyncStateView::Paging { anchor, examined, to_add } => match event {
            SyncEventView::Destination(_) => (state, SyncActionView::FetchPage { offset: examined }),
            SyncEventView::Fetched(Err(cause)) => (
                SyncStateView::Resolved,
                SyncActionView::Fail(SyncErrorView::Store { offset: examined, cause }),
            ),
            SyncEventView::Fetched(Ok(page)) => scan_page(anchor, examined, to_add, page),
        },
        SyncStateView::Resolved => (state, SyncActionView::Stop),
    }
}

/// Whether the count of examined records stays within `usize` when `event`
/// reaches `state`.
pub open spec fn countable(state: SyncStateView, event: SyncEventView) -> bool {
    match (state, event) {
        (
            SyncStateView::Paging { examined, .. },
            SyncEventView::Fetched(Ok(page)),
        ) => examined + page.len() <= usize::MAX,
        _ => true,
    }
}

/// The records of a concatenation are the records of its parts.
proof fn lemma_deep_view_add(a: Vec<AlbumTsv>, b: Vec<AlbumTsv>, ab: Vec<AlbumTsv>)
    requires
        ab@ == a@ + b@,
    ensures
        ab.deep_view() == a.deep_view() + b.deep_view(),
{
    assert(ab.deep_view() =~= a.deep_view() + b.deep_view());
}

/// The place of the first record of `page` equal to `anchor`, or the length
/// of `page` where there is none.
fn position(page: &Vec<AlbumTsv>, anchor: &AlbumTsv) -> (k: usize)
    ensures
        k == first_index(page.deep_view(), anchor@),
        k <= page.len(),
{
    let mut i: usize = 0;
    while i < page.len()
        invariant
            i <= page.len(),
            forall|j: int| 0 <= j < i ==> #[trigger] page.deep_view()[j] != anchor@,
        decreases page.len() - i,
    {
        if page[i] == *anchor {
            proof {
                lemma_first_index_is(page.deep_view(), anchor@, i as int);
            }
            return i;
        }
        i = i + 1;
    }
    proof {
        lemma_first_index_is(page.deep_view(), anchor@, i as int);
    }
    i
}

/// Reads one page in the `Paging` state.
fn scan(anchor: AlbumTsv, examined: usize, to_add: Vec<AlbumTsv>, page: Vec<AlbumTsv>) -> (r: (
    SyncState,
    SyncAction,
))
    requires
        examined + page.len() <= usize::MAX,
    ensures
        (r.0@, r.1@) == scan_page(anchor@, examined, to_add.deep_view(), page.deep_view()),
{
    let mut to_add = to_add;
    let mut page = page;
    let ghost kept = to_add;
    let ghost whole = page;
    let k: usize = position(&page, &anchor);
    let total: usize = examined + page.len();
    if k < page.len() {
        page.truncate(k);
        let ghost head = page;
        assert(head.deep_view() =~= whole.deep_view().take(k as int));
        to_add.append(&mut page);
        proof {
            lemma_deep_view_add(kept, head, to_add);
        }
        if to_add.len() == 0 {
            (SyncState::Resolved, SyncAction::UpToDate)
        } else {
            (SyncState::Resolved, SyncAction::Append(to_add))
        }
    } else if page.len() == 0 || total >= MAX_LOOKBACK {
        (
            SyncState::Resolved,
            SyncAction::Fail(SyncError::BoundaryNotFound { anchor, examined: total }),
        )
    } else {
        to_add.append(&mut page);
        proof {
            lemma_deep_view_add(kept, whole, to_add);
        }
        (SyncState::Paging { anchor, examined: total, to_add }, SyncAction::FetchPage { offset: total })
    }
}

/// The state in which every run begins, and the first thing it asks.
pub fn start() -> (r: (SyncState, SyncAction))
    ensures
        r.0@ == SyncStateView::Anchor,
        r.1@ == SyncActionView::ReadDestination,
{
    (SyncState::Anchor, SyncAction::ReadDestination)
}

/// One decision of a run: the state that follows `state` on `event`, and what
/// the caller is to do next.
pub fn step(state: SyncState, event: SyncEvent) -> (r: (SyncState, SyncAction))
    requires
        countable(state@, event@),
    ensures
        (r.0@, r.1@) == next(state@, event@),
{
    match state {
        SyncState::Anchor => match event {
            SyncEvent::Destination(contents) => {
                let text: Option<&str> = match &contents {
                    Some(text) => Some(text.as_str()),
                    None => None,
                };
                match get_last_album_added(text) {
                    Ok(anchor) => {
                        let to_add: Vec<AlbumTsv> = Vec::new();
                        assert(to_add.deep_view() =~= Seq::<AlbumTsvView>::empty());
                        (
                            SyncState::Paging { anchor, examined: 0, to_add },
                            SyncAction::FetchPage { offset: 0 },
                        )
                    },
                    Err(e) => (SyncState::Resolved, SyncAction::Fail(e)),
                }
            },
            SyncEvent::Fetched(_) => (SyncState::Anchor, SyncAction::ReadDestination),
        },
        SyncState::Paging { anchor, examined, to_add } => match event {
            SyncEvent::Destination(_) => (
                SyncState::Paging { anchor, examined, to_add },
                SyncAction::FetchPage { offset: examined },
            ),
            SyncEvent::Fetched(Err(cause)) => (
                SyncState::Resolved,
                SyncAction::Fail(SyncError::Store { offset: examined, cause }),
            ),
            SyncEvent::Fetched(Ok(page)) => scan(anchor, examined, to_add, page),
        },
        SyncState::Resolved => (SyncState::Resolved, SyncAction::Stop),
    }
}

/// The boundary is respected: where the anchor stands at place `k` of the
/// first page, the run is over after that one page. It asked the source
/// once, it adds the `k` records that stand before the anchor, in the
/// page's order, and nothing that stands at or after it.
pub proof fn lemma_boundary_on_first_page(
    destination: Option<Seq<char>>,
    page: Seq<AlbumTsvView>,
    k: int,
)
    requires
        last_added(destination) is Ok,
        0 <= k < page.len(),
        page[k] == last_added(destination)->Ok_0,
        forall|j: int| 0 <= j < k ==> #[trigger] page[j] != last_added(destination)->Ok_0,
    ensures
        ({
            let (paging, first) = next(
                SyncStateView::Anchor,
                SyncEventView::Destination(destination),
            );
            let (end, last) = next(paging, SyncEventView::Fetched(Ok(page)));
            &&& first == SyncActionView::FetchPage { offset: 0 }
            &&& end == SyncStateView::Resolved
            &&& k == 0 ==> last == SyncActionView::UpToDate
            &&& k > 0 ==> last == SyncActionView::Append(page.take(k))
        }),
{
    lemma_first_index_is(page, last_added(destination)->Ok_0, k);
    assert(Seq::<AlbumTsvView>::empty() + page.take(k) =~= page.take(k));
}

/// The lookback is a ceiling for every source: a page without the anchor
/// that is empty, or that brings the count of examined records to
/// `MAX_LOOKBACK` or beyond, ends the run in failure, with the anchor and
/// that count. No further page is asked for and nothing is added.
pub proof fn lemma_ceiling(
    anchor: AlbumTsvView,
    examined: usize,
    to_add: Seq<AlbumTsvView>,
    page: Seq<AlbumTsvView>,
)
    requires
        !page.contains(anchor),
        page.len() == 0 || examined + page.len() >= MAX_LOOKBACK,
        examined + page.len() <= usize::MAX,
    ensures
        next(
            SyncStateView::Paging { anchor, examined, to_add },
            SyncEventView::Fetched(Ok(page)),
        ) == (
            SyncStateView::Resolved,
            SyncActionView::Fail(
                SyncErrorView::BoundaryNotFound {
                    anchor,
                    examined: (examined + page.len()) as usize,
                },
            ),
        ),
{
    lemma_first_index(page, anchor);
}

/// Whether a state is one that a run can be in: while it pages, it has kept
/// exactly the records it examined, fewer of them than the lookback allows,
/// and the anchor is not among them.
pub open spec fn is_sound(state: SyncStateView) -> bool {
    match state {
        SyncStateView::Paging { anchor, examined, to_add } => {
            &&& examined < MAX_LOOKBACK
            &&& to_add.len() == examined
            &&& !to_add.contains(anchor)
        },
        _ => true,
    }
}

/// Soundness is kept by every decision, whatever the caller reports, and a
/// run never adds its anchor again: the records of an `Append` are at least
/// one, and none of them equals the anchor.
pub proof fn lemma_next_is_sound(state: SyncStateView, event: SyncEventView)
    requires
        is_sound(state),
        countable(state, event),
    ensures
        is_sound(next(state, event).0),
        next(state, event).1 matches SyncActionView::Append(albums) ==> {
            &&& state matches SyncStateView::Paging { anchor, .. }
            &&& albums.len() > 0
            &&& !albums.contains(anchor)
        },
{
    if let SyncStateView::Paging { anchor, examined, to_add } = state {
        if let SyncEventView::Fetched(Ok(page)) = event {
            lemma_first_index(page, anchor);
            let k = first_index(page, anchor);
            let kept = if k < page.len() {
                to_add + page.take(k)
            } else {
                to_add + page
            };
            if kept.contains(anchor) {
                let j = choose|j: int| 0 <= j < kept.len() && kept[j] == anchor;
                if j < to_add.len() {
                    assert(to_add.contains(to_add[j]));
                } else {
                    assert(page[j - to_add.len()] == anchor);
                }
            }
        }
    }
}

} // verus!
