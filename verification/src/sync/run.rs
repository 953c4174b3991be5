//! Whole runs: what a run comes to when the source is a known list of
//! records, and that the state machine, driven page by page over that list,
//! comes to exactly that.

use crate::sync::data::AlbumTsv;
use crate::sync::data::AlbumTsvView;
use crate::sync::error::SyncError;
use crate::sync::error::SyncErrorView;
use crate::sync::next;
use crate::sync::countable;
use crate::sync::scan::first_index;
use crate::sync::scan::lemma_first_index;
use crate::sync::scan::lemma_first_index_is;
use crate::sync::sqlite::PAGE_SIZE;
use crate::sync::start;
use crate::sync::step;
use crate::sync::tsv::add_albums_to_file;
use crate::sync::tsv::last_added;
use crate::sync::tsv::lemma_last_added_after_add;
use crate::sync::tsv::opt_text;
use crate::sync::tsv::render_lines;
use crate::sync::tsv::well_formed;
use crate::sync::SyncAction;
use crate::sync::SyncActionView;
use crate::sync::SyncEvent;
use crate::sync::SyncEventView;
use crate::sync::SyncStateView;
use crate::sync::MAX_LOOKBACK;
use vstd::prelude::*;
use vstd::string::StringExecFns;

verus! {

/// How a run that succeeded ended.
#[derive(Debug, PartialEq, Eq)]
pub enum SyncOutcome {
    /// The newest source record is the anchor: nothing was added.
    UpToDate,
    /// These albums were added, newest first, and this is the archive's new
    /// text.
    Added { albums: Vec<AlbumTsv>, destination: String },
}

/// A `SyncOutcome` as mathematical values.
pub enum SyncOutcomeView {
    UpToDate,
    Added { albums: Seq<AlbumTsvView>, destination: Seq<char> },
}

impl View for SyncOutcome {
    type V = SyncOutcomeView;

    open spec fn view(&self) -> SyncOutcomeView {
        match *self {
            SyncOutcome::UpToDate => SyncOutcomeView::UpToDate,
            SyncOutcome::Added { albums, destination } => SyncOutcomeView::Added {
                albums: albums.deep_view(),
                destination: destination@,
            },
        }
    }
}

/// The page of `source` that begins `offset` records from the newest: up to
/// `PAGE_SIZE` records, fewer at the end of the source and none beyond it.
pub open spec fn page_of(source: Seq<AlbumTsvView>, offset: int) -> Seq<AlbumTsvView> {
    let from = if offset < source.len() {
        offset
    } else {
        source.len() as int
    };
    let to = if from + PAGE_SIZE < source.len() {
        from + PAGE_SIZE
    } else {
        source.len() as int
    };
    source.subrange(from, to)
}

/// The part of the source that a run examines at most: its `MAX_LOOKBACK`
/// newest records.
pub open spec fn lookback(source: Seq<AlbumTsvView>) -> Seq<AlbumTsvView> {
    if source.len() <= MAX_LOOKBACK {
        source
    } else {
        source.take(MAX_LOOKBACK as int)
    }
}

/// The records of `source` that are newer than `anchor`, newest first: what
/// stands before the first occurrence of `anchor` within the lookback. A
/// lookback without `anchor` is an error that names how many records it held.
pub open spec fn new_albums(anchor: AlbumTsvView, source: Seq<AlbumTsvView>) -> Result<
    Seq<AlbumTsvView>,
    SyncErrorView,
> {
    let window = lookback(source);
    let k = first_index(window, anchor);
    if k < window.len() {
        Ok(window.take(k))
    } else {
        Err(SyncErrorView::BoundaryNotFound { anchor, examined: window.len() as usize })
    }
}

/// What a run comes to, given the archive's text (`None` for no archive)
/// and the source's records, newest first.
pub open spec fn sync_result(destination: Option<Seq<char>>, source: Seq<AlbumTsvView>) -> Result<
    SyncOutcomeView,
    SyncErrorView,
> {
    match last_added(destination) {
        Err(e) => Err(e),
        Ok(anchor) => match new_albums(anchor, source) {
            Err(e) => Err(e),
            Ok(albums) => if albums.len() == 0 {
                Ok(SyncOutcomeView::UpToDate)
            } else {
                Ok(
                    SyncOutcomeView::Added {
                        albums,
                        destination: render_lines(albums) + destination->0,
                    },
                )
            },
        },
    }
}

/// The archive's text after a run that came to `result`: the new text where
/// albums were added, and the text as it was in every other case.
pub open spec fn archive_after(
    destination: Option<Seq<char>>,
    result: Result<SyncOutcomeView, SyncErrorView>,
) -> Option<Seq<char>> {
    match result {
        Ok(SyncOutcomeView::Added { albums, destination: text }) => Some(text),
        _ => destination,
    }
}

/// What the caller reports when it performs `action` on this archive and
/// this source.
pub open spec fn reply(
    action: SyncActionView,
    destination: Option<Seq<char>>,
    source: Seq<AlbumTsvView>,
) -> SyncEventView {
    match action {
        SyncActionView::FetchPage { offset } => SyncEventView::Fetched(
            Ok(page_of(source, offset as int)),
        ),
        _ => SyncEventView::Destination(destination),
    }
}

/// Whether a run on this archive and this source can stand in `state` and
/// ask `action`: before the anchor is read; or with everything up to
/// `examined` read, kept, and free of the anchor; or over, with the result
/// that `sync_result` gives.
pub open spec fn on_course(
    state: SyncStateView,
    action: SyncActionView,
    destination: Option<Seq<char>>,
    source: Seq<AlbumTsvView>,
) -> bool {
    match state {
        SyncStateView::Anchor => action == SyncActionView::ReadDestination,
        SyncStateView::Paging { anchor, examined, to_add } => {
            &&& action == SyncActionView::FetchPage { offset: examined }
            &&& last_added(destination) == Ok::<AlbumTsvView, SyncErrorView>(anchor)
            &&& examined <= source.len()
            &&& examined < MAX_LOOKBACK
            &&& (examined as int % PAGE_SIZE as int == 0 || examined == source.len())
            &&& to_add == source.take(examined as int)
            &&& !to_add.contains(anchor)
        },
        SyncStateView::Resolved => match action {
            SyncActionView::UpToDate => sync_result(destination, source) == Ok::<
                SyncOutcomeView,
                SyncErrorView,
            >(SyncOutcomeView::UpToDate),
            SyncActionView::Append(albums) => {
                &&& destination is Some
                &&& sync_result(destination, source) == Ok::<SyncOutcomeView, SyncErrorView>(
                    SyncOutcomeView::Added {
                        albums,
                        destination: render_lines(albums) + destination->0,
                    },
                )
            },
            SyncActionView::Fail(e) => sync_result(destination, source) == Err::<
                SyncOutcomeView,
                SyncErrorView,
            >(e),
            _ => false,
        },
    }
}

/// How many more decisions a run in `state` can take at most.
pub open spec fn remaining(state: SyncStateView) -> int {
    match state {
        SyncStateView::Anchor => MAX_LOOKBACK + 2,
        SyncStateView::Paging { examined, .. } => MAX_LOOKBACK + 1 - examined,
        SyncStateView::Resolved => 0,
    }
}

/// The state machine, driven over a list, stays on course and comes nearer
/// to its end with every decision: whenever the caller performs what the run
/// asks and reports what the archive and the source hold, the state that
/// follows is again one that a run on them can stand in. So the action of a
/// run that is over is the one that `sync_result` describes.
pub proof fn lemma_next_on_course(
    state: SyncStateView,
    action: SyncActionView,
    destination: Option<Seq<char>>,
    source: Seq<AlbumTsvView>,
)
    requires
        on_course(state, action, destination, source),
        !(state is Resolved),
    ensures
        countable(state, reply(action, destination, source)),
        on_course(
            next(state, reply(action, destination, source)).0,
            next(state, reply(action, destination, source)).1,
            destination,
            source,
        ),
        remaining(next(state, reply(action, destination, source)).0) < remaining(state),
{
    match state {
        SyncStateView::Anchor => {
            assert(source.take(0) =~= Seq::<AlbumTsvView>::empty());
        },
        SyncStateView::Paging { anchor, examined, to_add } => {
            let page = page_of(source, examined as int);
            let window = lookback(source);
            let k = first_index(page, anchor);
            let total = examined + page.len();
            lemma_first_index(page, anchor);
            assert forall|j: int| 0 <= j < examined + k && j < window.len() implies window[j]
                != anchor by {
                if j < examined {
                    assert(to_add[j] == source[j]);
                    assert(to_add.contains(to_add[j]));
                } else {
                    assert(page[j - examined] == source[j]);
                }
            }
            if k < page.len() {
                assert(page[k] == source[examined + k]);
                lemma_first_index_is(window, anchor, examined + k);
                assert(window.take(examined + k) =~= to_add + page.take(k));
            } else if page.len() == 0 || total >= MAX_LOOKBACK {
                lemma_first_index_is(window, anchor, window.len() as int);
            } else {
                assert(source.take(total) =~= to_add + page);
                if (to_add + page).contains(anchor) {
                    let j = choose|j: int| 0 <= j < total && (to_add + page)[j] == anchor;
                    assert(window[j] == anchor);
                }
            }
        },
        SyncStateView::Resolved => {},
    }
}

/// The page of `source` that begins at `offset`.
fn page_at(source: &Vec<AlbumTsv>, offset: usize) -> (page: Vec<AlbumTsv>)
    ensures
        page.deep_view() == page_of(source.deep_view(), offset as int),
{
    let from: usize = if offset < source.len() {
        offset
    } else {
        source.len()
    };
    let to: usize = if source.len() - from > PAGE_SIZE {
        from + PAGE_SIZE
    } else {
        source.len()
    };
    let mut page: Vec<AlbumTsv> = Vec::new();
    let mut i: usize = from;
    while i < to
        invariant
            from <= i <= to <= source.len(),
            page.len() == i - from,
            forall|j: int| 0 <= j < i - from ==> (#[trigger] page[j])@ == source[from + j]@,
        decreases to - i,
    {
        page.push(source[i].clone());
        i = i + 1;
    }
    assert(page.deep_view() =~= page_of(source.deep_view(), offset as int));
    page
}

/// Runs one synchronisation on values held in memory: `destination` is the
/// archive's text (`None` where there is no archive), `source` the source's
/// starred albums, newest first. The source is read page by page, as a
/// stored one would be, and no further than the lookback allows.
///
/// On success the outcome holds the albums that are new, newest first, and
/// the archive's text with their lines ahead of what it held; or it says
/// that the archive is up to date. On failure nothing is added.
pub fn sync(destination: Option<&str>, source: &Vec<AlbumTsv>) -> (r: Result<
    SyncOutcome,
    SyncError,
>)
    ensures
        match r {
            Ok(outcome) => sync_result(opt_text(destination), source.deep_view()) == Ok::<
                SyncOutcomeView,
                SyncErrorView,
            >(outcome@),
            Err(e) => sync_result(opt_text(destination), source.deep_view()) == Err::<
                SyncOutcomeView,
                SyncErrorView,
            >(e@),
        },
{
    let (state, action) = start();
    let mut state = state;
    let mut action = action;
    loop
        invariant
            on_course(state@, action@, opt_text(destination), source.deep_view()),
        decreases remaining(state@),
    {
        let event = match action {
            SyncAction::ReadDestination => SyncEvent::Destination(
                match destination {
                    Some(text) => Some(String::from_str(text)),
                    None => None,
                },
            ),
            SyncAction::FetchPage { offset } => SyncEvent::Fetched(Ok(page_at(source, offset))),
            SyncAction::Append(albums) => {
                // A run that adds albums has read its anchor from an archive.
                let text: &str = match destination {
                    Some(text) => text,
                    None => "",
                };
                let destination = add_albums_to_file(&albums, text);
                return Ok(SyncOutcome::Added { albums, destination });
            },
            SyncAction::UpToDate | SyncAction::Stop => {
                return Ok(SyncOutcome::UpToDate);
            },
            SyncAction::Fail(e) => {
                return Err(e);
            },
        };
        proof {
            assert(event@ == reply(action@, opt_text(destination), source.deep_view()));
            lemma_next_on_course(state@, action@, opt_text(destination), source.deep_view());
        }
        let (s, a) = step(state, event);
        state = s;
        action = a;
    }
}

/// Order is kept: where a run adds albums, they are the source's records
/// newer than the anchor, newest first as the source gave them, and the
/// archive's new text is their lines, in that order, followed by everything
/// the archive held, unchanged.
pub proof fn lemma_added_ahead(destination: Option<Seq<char>>, source: Seq<AlbumTsvView>)
    ensures
        sync_result(destination, source) matches Ok(SyncOutcomeView::Added { albums, destination: text })
            ==> {
            &&& destination matches Some(old)
            &&& last_added(destination) matches Ok(anchor)
            &&& text == render_lines(albums) + old
            &&& 0 < albums.len() <= source.len()
            &&& albums == source.take(albums.len() as int)
            &&& !albums.contains(anchor)
            &&& source[albums.len() as int] == anchor
        },
{
    if let Ok(SyncOutcomeView::Added { albums, destination: text }) = sync_result(
        destination,
        source,
    ) {
        let anchor = last_added(destination)->Ok_0;
        let window = lookback(source);
        let k = first_index(window, anchor);
        lemma_first_index(window, anchor);
        assert(albums =~= source.take(k));
        if albums.contains(anchor) {
            let j = choose|j: int| 0 <= j < albums.len() && albums[j] == anchor;
            assert(window[j] == anchor);
        }
    }
}

/// Idempotence: after a run that succeeded, a second run on the archive as
/// the first left it and on the same source finds the archive up to date and
/// leaves it as it is. Where the first run added albums, this asks that the
/// newest of them is well formed, so that its line reads back as itself.
pub proof fn lemma_sync_twice(destination: Option<Seq<char>>, source: Seq<AlbumTsvView>)
    requires
        sync_result(destination, source) is Ok,
        sync_result(destination, source) matches Ok(SyncOutcomeView::Added { .. }) ==> well_formed(
            source[0],
        ),
    ensures
        ({
            let first = sync_result(destination, source);
            let second = sync_result(archive_after(destination, first), source);
            &&& second == Ok::<SyncOutcomeView, SyncErrorView>(SyncOutcomeView::UpToDate)
            &&& archive_after(archive_after(destination, first), second) == archive_after(
                destination,
                first,
            )
        }),
{
    let first = sync_result(destination, source);
    if let Ok(SyncOutcomeView::Added { albums, destination: text }) = first {
        let window = lookback(source);
        lemma_added_ahead(destination, source);
        assert(albums[0] == source[0]);
        lemma_last_added_after_add(albums, destination->0);
        assert(window[0] == source[0]);
        assert(window.take(0) =~= Seq::<AlbumTsvView>::empty());
    }
}

/// The lookback is a ceiling: a run whose anchor is not among the
/// `MAX_LOOKBACK` newest source records fails, naming the anchor and the
/// number of records it examined, and adds nothing.
pub proof fn lemma_lookback_ceiling(destination: Option<Seq<char>>, source: Seq<AlbumTsvView>)
    requires
        last_added(destination) is Ok,
        !lookback(source).contains(last_added(destination)->Ok_0),
    ensures
        sync_result(destination, source) == Err::<SyncOutcomeView, SyncErrorView>(
            SyncErrorView::BoundaryNotFound {
                anchor: last_added(destination)->Ok_0,
                examined: lookback(source).len() as usize,
            },
        ),
        archive_after(destination, sync_result(destination, source)) == destination,
{
    lemma_first_index(lookback(source), last_added(destination)->Ok_0);
}

} // verus!
