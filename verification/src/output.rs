//! What is shown for the results of a search: lines of tab-separated text or
//! the content of a table for the standard output, and a coloured notice for
//! the standard error. Everything here is text; writing it is the caller's.

use crate::search::data::display_fields;
use crate::search::data::join;
use crate::search::data::join_tabs;
use crate::search::data::sort_name;
use crate::search::data::texts;
use crate::search::data::SearchResults;
use crate::search::data::SearchResultsView;
use crate::search::data::SortOrder;
use crate::sync::decimal::decimal;
use crate::sync::decimal::push_decimal;
use vstd::prelude::*;
use vstd::string::StringExecFns;

verus! {

/// The column of a table of results whose cells are set to the right: the
/// track counts.
pub const RIGHT_ALIGNED_COLUMN: usize = 2;

/// A colour of the terminal.
#[derive(Debug, Clone, Copy, PartialEq, Eq, Structural)]
pub enum Tint {
    /// The terminal's own foreground colour.
    Default,
    /// A colour of the 256-colour palette.
    Fixed(u8),
}

/// A piece of text with the colour and weight in which it is shown.
#[derive(Debug, PartialEq, Eq)]
pub struct Span {
    pub text: String,
    pub tint: Tint,
    pub bold: bool,
}

/// A `Span` as mathematical values.
pub struct SpanView {
    pub text: Seq<char>,
    pub tint: Tint,
    pub bold: bool,
}

impl View for Span {
    type V = SpanView;

    open spec fn view(&self) -> SpanView {
        SpanView { text: self.text@, tint: self.tint, bold: self.bold }
    }
}

impl DeepView for Span {
    type V = SpanView;

    open spec fn deep_view(&self) -> SpanView {
        self@
    }
}

/// The text, escape codes included, that shows `spans` one after the other
/// on an ANSI terminal.
pub uninterp spec fn ansi_text(spans: Seq<SpanView>) -> Seq<char>;

/// Paints each span with `nu_ansi_term::Style::paint`, in a style made of
/// the span's foreground colour and weight and nothing else, and writes the
/// painted spans together through `nu_ansi_term::AnsiStrings`. The contract
/// names the text that the crate writes and says nothing of what it holds;
/// it claims only that the text depends on the spans alone.
#[verifier::external_body]
fn paint(spans: &Vec<Span>) -> (text: String)
    ensures
        text@ == ansi_text(spans.deep_view()),
{
    let painted: Vec<nu_ansi_term::AnsiString> = spans.iter().map(|span| nu_ansi_term::Style {
        foreground: Some(match span.tint {
            Tint::Default => nu_ansi_term::Color::Default,
            Tint::Fixed(n) => nu_ansi_term::Color::Fixed(n),
        }),
        is_bold: span.bold,
        ..nu_ansi_term::Style::default()
    }.paint(span.text.as_str())).collect();
    nu_ansi_term::AnsiStrings(&painted).to_string()
}

/// The content of a table of results: the header's cells, where a header is
/// asked for, and the cells of each row.
#[derive(Debug, PartialEq, Eq)]
pub struct TableContent {
    pub header: Option<Vec<String>>,
    pub rows: Vec<Vec<String>>,
}

/// A `TableContent` as mathematical values.
pub struct TableContentView {
    pub header: Option<Seq<Seq<char>>>,
    pub rows: Seq<Seq<Seq<char>>>,
}

impl View for TableContent {
    type V = TableContentView;

    open spec fn view(&self) -> TableContentView {
        TableContentView {
            header: match self.header {
                Some(cells) => Some(texts(cells@)),
                None => None,
            },
            rows: Seq::new(self.rows@.len(), |i: int| texts(self.rows@[i]@)),
        }
    }
}

/// One thing to show, and where.
#[derive(Debug, PartialEq, Eq)]
pub enum Piece {
    /// A notice for the standard error.
    Notice(String),
    /// A line for the standard output.
    Line(String),
    /// A table to draw on the standard output.
    Table(TableContent),
}

/// A `Piece` as mathematical values.
pub enum PieceView {
    Notice(Seq<char>),
    Line(Seq<char>),
    Table(TableContentView),
}

impl View for Piece {
    type V = PieceView;

    open spec fn view(&self) -> PieceView {
        match *self {
            Piece::Notice(text) => PieceView::Notice(text@),
            Piece::Line(text) => PieceView::Line(text@),
            Piece::Table(content) => PieceView::Table(content@),
        }
    }
}

impl DeepView for Piece {
    type V = PieceView;

    open spec fn deep_view(&self) -> PieceView {
        self@
    }
}

/// The headers of the columns under which results are shown.
pub open spec fn header_fields(include_playlist: bool) -> Seq<Seq<char>> {
    let fields = seq!["Artists"@, "Album"@, "Tracks"@, "Year"@, "Date Added"@];
    if include_playlist {
        fields.push("Playlist"@)
    } else {
        fields
    }
}

/// The spans of the notice that a search for `term` found nothing.
pub open spec fn no_results_spans(term: Seq<char>) -> Seq<SpanView> {
    seq![
        SpanView { text: "\t--- No results found for "@, tint: Tint::Fixed(208), bold: false },
        SpanView { text: term, tint: Tint::Fixed(205), bold: true },
        SpanView { text: " ---\n"@, tint: Tint::Fixed(208), bold: false },
    ]
}

/// The spans of the notice that sums a search up: how many results were
/// found, for which term, and in which order they are listed.
pub open spec fn summary_spans(count: nat, term: Seq<char>, sort: SortOrder) -> Seq<SpanView> {
    seq![
        SpanView { text: "\t--- "@, tint: Tint::Default, bold: false },
        SpanView { text: decimal(count), tint: Tint::Fixed(12), bold: true },
        SpanView { text: " results found for "@, tint: Tint::Default, bold: false },
        SpanView { text: term, tint: Tint::Fixed(205), bold: true },
        SpanView { text: ", sort: "@, tint: Tint::Default, bold: false },
        SpanView { text: sort_name(sort), tint: Tint::Fixed(99), bold: true },
        SpanView { text: " ---\n"@, tint: Tint::Default, bold: false },
    ]
}

/// The notice that goes with a set of results: that nothing was found, or
/// the summary of what was.
pub open spec fn notice(results: SearchResultsView) -> Seq<char> {
    if results.results.len() == 0 {
        ansi_text(no_results_spans(results.search_term))
    } else {
        ansi_text(summary_spans(results.results.len(), results.search_term, results.sort))
    }
}

/// The lines under which results are shown as plain text: the header, where
/// one is asked for, and one line for each result, in the results' order.
pub open spec fn plain_lines(results: SearchResultsView) -> Seq<PieceView> {
    let header = if results.include_header {
        seq![PieceView::Line(join(header_fields(results.include_playlist_name), '\t'))]
    } else {
        Seq::empty()
    };
    header + Seq::new(
        results.results.len(),
        |i: int|
            PieceView::Line(
                join(display_fields(results.results[i], results.include_playlist_name), '\t'),
            ),
    )
}

/// The table under which results are shown.
pub open spec fn table_of(results: SearchResultsView) -> TableContentView {
    TableContentView {
        header: if results.include_header {
            Some(header_fields(results.include_playlist_name))
        } else {
            None
        },
        rows: Seq::new(
            results.results.len(),
            |i: int| display_fields(results.results[i], results.include_playlist_name),
        ),
    }
}

/// What is shown for results as plain text: for no results, the notice that
/// nothing was found; otherwise the summary and then the lines.
pub open spec fn plain_output(results: SearchResultsView) -> Seq<PieceView> {
    if results.results.len() == 0 {
        seq![PieceView::Notice(notice(results))]
    } else {
        seq![PieceView::Notice(notice(results))] + plain_lines(results)
    }
}

/// What is shown for results as a table: for no results, the notice that
/// nothing was found; otherwise the table and then the summary, with the
/// summary also ahead of the table where the output is no terminal.
pub open spec fn table_output(results: SearchResultsView, is_terminal: bool) -> Seq<PieceView> {
    if results.results.len() == 0 {
        seq![PieceView::Notice(notice(results))]
    } else if is_terminal {
        seq![PieceView::Table(table_of(results)), PieceView::Notice(notice(results))]
    } else {
        seq![
            PieceView::Notice(notice(results)),
            PieceView::Table(table_of(results)),
            PieceView::Notice(notice(results)),
        ]
    }
}

/// The headers of the columns under which results are shown: artists, album,
/// tracks, year and date added, and the playlist where that is asked for.
pub fn get_header_fields(include_playlist: bool) -> (fields: Vec<&'static str>)
    ensures
        fields@.len() == header_fields(include_playlist).len(),
        forall|i: int|
            0 <= i < fields@.len() ==> (#[trigger] fields@[i])@ == header_fields(
                include_playlist,
            )[i],
{
    if include_playlist {
        vec!["Artists", "Album", "Tracks", "Year", "Date Added", "Playlist"]
    } else {
        vec!["Artists", "Album", "Tracks", "Year", "Date Added"]
    }
}

/// The headers as owned texts.
fn header_cells(include_playlist: bool) -> (cells: Vec<String>)
    ensures
        texts(cells@) == header_fields(include_playlist),
{
    let fields = get_header_fields(include_playlist);
    let mut cells: Vec<String> = Vec::new();
    let mut i: usize = 0;
    while i < fields.len()
        invariant
            i <= fields.len(),
            cells.len() == i,
            forall|j: int| 0 <= j < i ==> (#[trigger] cells@[j])@ == fields@[j]@,
        decreases fields.len() - i,
    {
        cells.push(String::from_str(fields[i]));
        i = i + 1;
    }
    assert(texts(cells@) =~= header_fields(include_playlist));
    cells
}

/// The spans of the notice that the search of `search_results` found
/// nothing.
pub fn no_results_message(search_results: &SearchResults) -> (spans: Vec<Span>)
    requires
        search_results.results.len() == 0,
    ensures
        spans.deep_view() == no_results_spans(search_results.search_term@),
{
    let mut spans: Vec<Span> = Vec::new();
    spans.push(
        Span {
            text: String::from_str("\t--- No results found for "),
            tint: Tint::Fixed(208),
            bold: false,
        },
    );
    spans.push(Span { text: search_results.search_term.clone(), tint: Tint::Fixed(205), bold: true });
    spans.push(Span { text: String::from_str(" ---\n"), tint: Tint::Fixed(208), bold: false });
    assert(spans.deep_view() =~= no_results_spans(search_results.search_term@));
    spans
}

/// The spans of the notice that sums the search of `search_results` up.
pub fn summary_message(search_results: &SearchResults) -> (spans: Vec<Span>)
    requires
        search_results.results.len() > 0,
    ensures
        spans.deep_view() == summary_spans(
            search_results.results.len() as nat,
            search_results.search_term@,
            search_results.sort,
        ),
{
    let mut count = String::new();
    push_decimal(&mut count, search_results.results.len() as u64);
    let mut spans: Vec<Span> = Vec::new();
    spans.push(Span { text: String::from_str("\t--- "), tint: Tint::Default, bold: false });
    spans.push(Span { text: count, tint: Tint::Fixed(12), bold: true });
    spans.push(
        Span { text: String::from_str(" results found for "), tint: Tint::Default, bold: false },
    );
    spans.push(Span { text: search_results.search_term.clone(), tint: Tint::Fixed(205), bold: true });
    spans.push(Span { text: String::from_str(", sort: "), tint: Tint::Default, bold: false });
    spans.push(
        Span {
            text: String::from_str(search_results.sort.name()),
            tint: Tint::Fixed(99),
            bold: true,
        },
    );
    spans.push(Span { text: String::from_str(" ---\n"), tint: Tint::Default, bold: false });
    assert(spans.deep_view() =~= summary_spans(
        search_results.results.len() as nat,
        search_results.search_term@,
        search_results.sort,
    ));
    spans
}

/// The notice for the standard error that a search found nothing, as the
/// terminal is to receive it.
pub fn no_results(search_results: &SearchResults) -> (text: String)
    requires
        search_results.results.len() == 0,
    ensures
        text@ == ansi_text(no_results_spans(search_results.search_term@)),
{
    let spans = no_results_message(search_results);
    paint(&spans)
}

/// The notice for the standard error that sums a search up, as the terminal
/// is to receive it.
pub fn search_summary(search_results: &SearchResults) -> (text: String)
    requires
        search_results.results.len() > 0,
    ensures
        text@ == ansi_text(
            summary_spans(
                search_results.results.len() as nat,
                search_results.search_term@,
                search_results.sort,
            ),
        ),
{
    let spans = summary_message(search_results);
    paint(&spans)
}

/// The notice that goes with `search_results`, whether they are empty or not.
fn notice_for(search_results: &SearchResults) -> (text: String)
    ensures
        text@ == notice(search_results@),
{
    if search_results.results.len() == 0 {
        no_results(search_results)
    } else {
        search_summary(search_results)
    }
}

/// The table under which `search_results` are shown.
fn table_content(search_results: &SearchResults) -> (content: TableContent)
    ensures
        content@ == table_of(search_results@),
{
    let header: Option<Vec<String>> = if search_results.include_header {
        Some(header_cells(search_results.include_playlist_name))
    } else {
        None
    };
    let mut rows: Vec<Vec<String>> = Vec::new();
    let mut i: usize = 0;
    while i < search_results.results.len()
        invariant
            i <= search_results.results.len(),
            rows.len() == i,
            forall|j: int|
                0 <= j < i ==> texts((#[trigger] rows@[j])@) == display_fields(
                    search_results.results@[j]@,
                    search_results.include_playlist_name,
                ),
        decreases search_results.results.len() - i,
    {
        rows.push(search_results.results[i].display_fields(search_results.include_playlist_name));
        i = i + 1;
    }
    let content = TableContent { header, rows };
    assert(content@.rows =~= table_of(search_results@).rows);
    content
}

/// The printer of search results.
pub struct Output();

impl Output {
    /// What to show for `search_results` as a table, in the order in which
    /// it is to be shown. `is_terminal` says whether the standard output is
    /// a terminal.
    pub fn search_results_table(search_results: &SearchResults, is_terminal: bool) -> (pieces: Vec<
        Piece,
    >)
        ensures
            pieces.deep_view() == table_output(search_results@, is_terminal),
    {
        let mut pieces: Vec<Piece> = Vec::new();
        if search_results.results.len() == 0 {
            pieces.push(Piece::Notice(notice_for(search_results)));
            assert(pieces.deep_view() =~= table_output(search_results@, is_terminal));
            return pieces;
        }
        if !is_terminal {
            pieces.push(Piece::Notice(notice_for(search_results)));
        }
        pieces.push(Piece::Table(table_content(search_results)));
        pieces.push(Piece::Notice(notice_for(search_results)));
        assert(pieces.deep_view() =~= table_output(search_results@, is_terminal));
        pieces
    }

    /// What to show for `search_results` as plain text, in the order in
    /// which it is to be shown.
    pub fn search_results(search_results: &SearchResults) -> (pieces: Vec<Piece>)
        ensures
            pieces.deep_view() == plain_output(search_results@),
    {
        let mut pieces: Vec<Piece> = Vec::new();
        pieces.push(Piece::Notice(notice_for(search_results)));
        if search_results.results.len() == 0 {
            assert(pieces.deep_view() =~= plain_output(search_results@));
            return pieces;
        }
        if search_results.include_header {
            let cells = header_cells(search_results.include_playlist_name);
            pieces.push(Piece::Line(join_tabs(&cells)));
        }
        let ghost first = pieces.deep_view();
        let ghost lines = Seq::new(
            search_results.results@.len(),
            |j: int|
                PieceView::Line(
                    join(
                        display_fields(
                            search_results@.results[j],
                            search_results.include_playlist_name,
                        ),
                        '\t',
                    ),
                ),
        );
        assert(first =~= seq![PieceView::Notice(notice(search_results@))] + if search_results.include_header {
            seq![PieceView::Line(join(header_fields(search_results.include_playlist_name), '\t'))]
        } else {
            Seq::empty()
        });
        assert(plain_output(search_results@) =~= first + lines);
        let mut i: usize = 0;
        while i < search_results.results.len()
            invariant
                i <= search_results.results.len(),
                pieces.len() == first.len() + i,
                forall|j: int| 0 <= j < first.len() ==> (#[trigger] pieces@[j])@ == first[j],
                forall|j: int|
                    0 <= j < i ==> (#[trigger] pieces@[first.len() + j])@ == PieceView::Line(
                        join(
                            display_fields(
                                search_results.results@[j]@,
                                search_results.include_playlist_name,
                            ),
                            '\t',
                        ),
                    ),
            decreases search_results.results.len() - i,
        {
            let line = search_results.results[i].to_tsv(search_results.include_playlist_name);
            pieces.push(Piece::Line(line));
            i = i + 1;
        }
        assert forall|k: int| 0 <= k < pieces.len() implies pieces.deep_view()[k] == (first
            + lines)[k] by {
            if k >= first.len() {
                let j = k - first.len();
                assert(pieces@[first.len() + j]@ == lines[j]);
            }
        }
        assert(pieces.deep_view() =~= first + lines);
        pieces
    }
}

} // verus!
