//! The archive's text: one record per line, six tab-separated fields in a
//! fixed order (artists, album, tracks, year, date added, playlist), the most
//! recent record on the first line.

use crate::sync::data::AlbumTsv;
use crate::sync::data::AlbumTsvView;
use crate::sync::decimal::decimal;
use crate::sync::decimal::i32_from_str;
use crate::sync::decimal::is_digit;
use crate::sync::decimal::lemma_decimal_is_digits;
use crate::sync::decimal::lemma_decimal_round_trip;
use crate::sync::decimal::lemma_signed_decimal_round_trip;
use crate::sync::decimal::parse_i32;
use crate::sync::decimal::parse_u16;
use crate::sync::decimal::push_decimal;
use crate::sync::decimal::push_signed_decimal;
use crate::sync::decimal::signed_decimal;
use crate::sync::decimal::u16_from_str;
use crate::sync::error::FormatError;
use crate::sync::error::SyncError;
use crate::sync::error::SyncErrorView;
use crate::sync::scan::first_index;
use crate::sync::scan::lemma_first_index;
use crate::sync::scan::lemma_first_index_is;
use vstd::prelude::*;
use vstd::string::StrSliceExecFns;
use vstd::string::StringExecFns;

verus! {

/// The pieces of `s` between its separators: one more piece than there are
/// separators, so an empty text is one empty piece.
pub open spec fn split(s: Seq<char>, sep: char) -> Seq<Seq<char>>
    decreases s.len(),
{
    let i = first_index(s, sep);
    if 0 <= i < s.len() {
        seq![s.take(i)] + split(s.skip(i + 1), sep)
    } else {
        seq![s]
    }
}

/// A record as one line of the archive, without the line break.
pub open spec fn render(r: AlbumTsvView) -> Seq<char> {
    r.artists + seq!['\t'] + r.album + seq!['\t'] + decimal(r.tracks as nat) + seq!['\t']
        + signed_decimal(r.year as int) + seq!['\t'] + r.date_added + seq!['\t'] + r.playlist
}

/// What a line of the archive holds: the record, or why it is none. A line
/// is a record when it has no line break and exactly six fields, of which
/// the third is a track count and the fourth a year.
pub open spec fn parse(line: Seq<char>) -> Result<AlbumTsvView, FormatError> {
    let fields = split(line, '\t');
    if line.contains('\n') {
        Err(FormatError::LineBreak)
    } else if fields.len() != 6 {
        Err(FormatError::FieldCount)
    } else {
        match parse_u16(fields[2]) {
            None => Err(FormatError::TrackCount),
            Some(tracks) => match parse_i32(fields[3]) {
                None => Err(FormatError::Year),
                Some(year) => Ok(
                    AlbumTsvView {
                        artists: fields[0],
                        album: fields[1],
                        tracks,
                        year,
                        date_added: fields[4],
                        playlist: fields[5],
                    },
                ),
            },
        }
    }
}

/// Whether a text can stand as a field of a line: it holds neither a tab nor
/// a line break.
pub open spec fn is_plain(s: Seq<char>) -> bool {
    !s.contains('\t') && !s.contains('\n')
}

/// Whether each text field of a record can stand as a field of a line.
pub open spec fn well_formed(r: AlbumTsvView) -> bool {
    is_plain(r.artists) && is_plain(r.album) && is_plain(r.date_added) && is_plain(r.playlist)
}

/// A text without separators is a single piece.
pub proof fn lemma_split_plain(s: Seq<char>, sep: char)
    requires
        !s.contains(sep),
    ensures
        split(s, sep) == seq![s],
{
    lemma_first_index(s, sep);
}

/// A piece without separators, a separator and more text split into that
/// piece and the pieces of the rest.
pub proof fn lemma_split_first(piece: Seq<char>, rest: Seq<char>, sep: char)
    requires
        !piece.contains(sep),
    ensures
        split(piece + seq![sep] + rest, sep) == seq![piece] + split(rest, sep),
{
    let s = piece + seq![sep] + rest;
    let k = piece.len() as int;
    assert forall|j: int| 0 <= j < k implies #[trigger] s[j] != sep by {
        assert(s[j] == piece[j]);
        assert(piece.contains(piece[j]));
    }
    assert(s[k] == sep);
    lemma_first_index_is(s, sep, k);
    assert(s.take(k) =~= piece);
    assert(s.skip(k + 1) =~= rest);
}

/// Every text has at least one piece.
pub proof fn lemma_split_len(s: Seq<char>, sep: char)
    ensures
        split(s, sep).len() >= 1,
{
}

/// The pieces of the text from `start` on, given where its first separator is.
proof fn lemma_split_at(line: Seq<char>, start: int, end: int)
    requires
        0 <= start <= end <= line.len(),
        end - start == first_index(line.skip(start), '\t'),
    ensures
        split(line.skip(start), '\t') == if end < line.len() {
            seq![line.subrange(start, end)] + split(line.skip(end + 1), '\t')
        } else {
            seq![line.subrange(start, end)]
        },
{
    let s = line.skip(start);
    assert(s.take(end - start) =~= line.subrange(start, end));
    if end < line.len() {
        assert(s.skip(end - start + 1) =~= line.skip(end + 1));
    } else {
        assert(s =~= line.subrange(start, end));
    }
}

/// The decimal notation of a number can stand as a field of a line.
proof fn lemma_decimal_is_plain(n: nat)
    ensures
        is_plain(decimal(n)),
{
    lemma_decimal_is_digits(n);
    let s = decimal(n);
    if s.contains('\t') {
        let k = choose|k: int| 0 <= k < s.len() && s[k] == '\t';
        assert(is_digit(s[k]));
    }
    if s.contains('\n') {
        let k = choose|k: int| 0 <= k < s.len() && s[k] == '\n';
        assert(is_digit(s[k]));
    }
}

/// The signed decimal notation of a number can stand as a field of a line.
proof fn lemma_signed_decimal_is_plain(i: int)
    ensures
        is_plain(signed_decimal(i)),
{
    let s = signed_decimal(i);
    if i < 0 {
        let d = decimal((-i) as nat);
        lemma_decimal_is_plain((-i) as nat);
        assert forall|k: int| 0 <= k < s.len() implies s[k] != '\t' && s[k] != '\n' by {
            if k > 0 {
                assert(s[k] == d[k - 1]);
                assert(d.contains(d[k - 1]));
            }
        }
    } else {
        lemma_decimal_is_plain(i as nat);
    }
}

/// The six fields of a well-formed record are the six pieces of its line,
/// and the line holds no line break.
pub proof fn lemma_render_is_line(r: AlbumTsvView)
    requires
        well_formed(r),
    ensures
        split(render(r), '\t') == seq![
            r.artists,
            r.album,
            decimal(r.tracks as nat),
            signed_decimal(r.year as int),
            r.date_added,
            r.playlist,
        ],
        !render(r).contains('\n'),
{
    let tab = seq!['\t'];
    let tracks = decimal(r.tracks as nat);
    let year = signed_decimal(r.year as int);
    lemma_decimal_is_plain(r.tracks as nat);
    lemma_signed_decimal_is_plain(r.year as int);
    let s4 = r.date_added + tab + r.playlist;
    let s3 = year + tab + s4;
    let s2 = tracks + tab + s3;
    let s1 = r.album + tab + s2;
    let s0 = r.artists + tab + s1;
    assert(render(r) =~= s0);
    lemma_split_plain(r.playlist, '\t');
    lemma_split_first(r.date_added, r.playlist, '\t');
    lemma_split_first(year, s4, '\t');
    lemma_split_first(tracks, s3, '\t');
    lemma_split_first(r.album, s2, '\t');
    lemma_split_first(r.artists, s1, '\t');
    assert(split(s0, '\t') =~= seq![r.artists, r.album, tracks, year, r.date_added, r.playlist]);
    if s0.contains('\n') {
        let k = choose|k: int| 0 <= k < s0.len() && s0[k] == '\n';
        let a = r.artists.len() as int;
        let b = a + 1 + r.album.len();
        let c = b + 1 + tracks.len();
        let d = c + 1 + year.len();
        let e = d + 1 + r.date_added.len();
        if k < a {
            assert(r.artists.contains(r.artists[k]));
        } else if k == a {
        } else if k < b {
            assert(r.album.contains(r.album[k - a - 1]));
        } else if k == b {
        } else if k < c {
            assert(tracks.contains(tracks[k - b - 1]));
        } else if k == c {
        } else if k < d {
            assert(year.contains(year[k - c - 1]));
        } else if k == d {
        } else if k < e {
            assert(r.date_added.contains(r.date_added[k - d - 1]));
        } else if k == e {
        } else {
            assert(r.playlist.contains(r.playlist[k - e - 1]));
        }
    }
}

/// Round trip: the line of a well-formed record reads back as that record.
pub proof fn lemma_parse_render(r: AlbumTsvView)
    requires
        well_formed(r),
    ensures
        parse(render(r)) == Ok::<AlbumTsvView, FormatError>(r),
{
    lemma_render_is_line(r);
    lemma_decimal_round_trip(r.tracks as nat);
    lemma_signed_decimal_round_trip(r.year as int);
}

/// A character that occurs in `s` only as the separator occurs in no piece
/// of `s`: each piece is made of characters of `s`, without the separators.
pub proof fn lemma_split_within(s: Seq<char>, sep: char, c: char, d: char)
    requires
        c == sep || !s.contains(c),
        d == sep || !s.contains(d),
    ensures
        forall|k: int|
            0 <= k < split(s, sep).len() ==> !(#[trigger] split(s, sep)[k]).contains(c) && !split(
                s,
                sep,
            )[k].contains(d),
    decreases s.len(),
{
    lemma_first_index(s, sep);
    let i = first_index(s, sep);
    let pieces = split(s, sep);
    if 0 <= i < s.len() {
        let head = s.take(i);
        let rest = s.skip(i + 1);
        if rest.contains(c) {
            let j = choose|j: int| 0 <= j < rest.len() && rest[j] == c;
            assert(s[i + 1 + j] == c);
        }
        if rest.contains(d) {
            let j = choose|j: int| 0 <= j < rest.len() && rest[j] == d;
            assert(s[i + 1 + j] == d);
        }
        lemma_split_within(rest, sep, c, d);
        if head.contains(c) {
            let j = choose|j: int| 0 <= j < head.len() && head[j] == c;
            assert(s[j] == c);
        }
        if head.contains(d) {
            let j = choose|j: int| 0 <= j < head.len() && head[j] == d;
            assert(s[j] == d);
        }
        assert forall|k: int| 0 <= k < pieces.len() implies !(#[trigger] pieces[k]).contains(c)
            && !pieces[k].contains(d) by {
            if k == 0 {
                assert(pieces[0] == head);
            } else {
                assert(pieces[k] == split(rest, sep)[k - 1]);
            }
        }
    } else {
        assert(pieces[0] == s);
    }
}

/// Whatever a line reads as is a well-formed record.
pub proof fn lemma_parse_well_formed(line: Seq<char>)
    ensures
        parse(line) matches Ok(r) ==> well_formed(r),
{
    if !line.contains('\n') {
        lemma_split_within(line, '\t', '\t', '\n');
    }
}

/// The place of the first `c` in `s` at or after `start`, or `len` where
/// there is none.
fn find_char(s: &str, len: usize, start: usize, c: char) -> (end: usize)
    requires
        len == s@.len(),
        start <= len,
    ensures
        start <= end <= len,
        end - start == first_index(s@.skip(start as int), c),
{
    let mut i: usize = start;
    while i < len
        invariant
            start <= i <= len,
            len == s@.len(),
            forall|j: int| start <= j < i ==> #[trigger] s@[j] != c,
        decreases len - i,
    {
        if s.get_char(i) == c {
            proof {
                lemma_first_index_is(s@.skip(start as int), c, i - start);
            }
            return i;
        }
        i = i + 1;
    }
    proof {
        lemma_first_index_is(s@.skip(start as int), c, i - start);
    }
    i
}

/// The field of `line` that begins at `start`, and the place where it ends:
/// that of the next tab, or `len` for the last field. `done` holds the
/// fields before it.
fn cut_field(line: &str, len: usize, start: usize, Ghost(done): Ghost<Seq<Seq<char>>>) -> (r: (
    String,
    usize,
))
    requires
        len == line@.len(),
        start <= len,
        split(line@, '\t') == done + split(line@.skip(start as int), '\t'),
    ensures
        start <= r.1 <= len,
        r.1 == len ==> split(line@, '\t') == done.push(r.0@),
        r.1 < len ==> split(line@, '\t') == done.push(r.0@) + split(
            line@.skip(r.1 + 1),
            '\t',
        ),
        r.1 < len ==> split(line@, '\t').len() >= done.len() + 2,
{
    let end: usize = find_char(line, len, start, '\t');
    let piece = line.substring_char(start, end);
    proof {
        let field = line@.subrange(start as int, end as int);
        lemma_split_at(line@, start as int, end as int);
        if end < len {
            let rest = split(line@.skip(end + 1), '\t');
            lemma_split_len(line@.skip(end + 1), '\t');
            assert(done + (seq![field] + rest) =~= done.push(field) + rest);
        } else {
            assert(done + seq![field] =~= done.push(field));
        }
    }
    (String::from_str(piece), end)
}

impl AlbumTsv {
    /// This record as one line of the archive, without the line break.
    pub fn to_line(&self) -> (line: String)
        ensures
            line@ == render(self@),
    {
        proof {
            reveal_strlit("\t");
        }
        let mut line = String::new();
        line.append(self.artists.as_str());
        line.append("\t");
        line.append(self.album.as_str());
        line.append("\t");
        push_decimal(&mut line, self.tracks as u64);
        line.append("\t");
        push_signed_decimal(&mut line, self.year);
        line.append("\t");
        line.append(self.date_added.as_str());
        line.append("\t");
        line.append(self.playlist.as_str());
        assert(line@ =~= render(self@));
        line
    }

    /// Reads one line of the archive. The line is a record when it has no
    /// line break and exactly six tab-separated fields, of which the third
    /// is a track count and the fourth a year; otherwise the error says
    /// which of these it first fails. No field is dropped or moved.
    pub fn from_line(line: &str) -> (r: Result<AlbumTsv, FormatError>)
        ensures
            match r {
                Ok(record) => parse(line@) == Ok::<AlbumTsvView, FormatError>(record@),
                Err(e) => parse(line@) == Err::<AlbumTsvView, FormatError>(e),
            },
    {
        let len: usize = line.unicode_len();
        proof {
            lemma_first_index(line@, '\n');
            assert(line@.skip(0) =~= line@);
        }
        if find_char(line, len, 0, '\n') < len {
            return Err(FormatError::LineBreak);
        }
        let ghost none = Seq::<Seq<char>>::empty();
        assert(none + split(line@, '\t') =~= split(line@, '\t'));
        let (artists, e0) = cut_field(line, len, 0, Ghost(none));
        if e0 == len {
            return Err(FormatError::FieldCount);
        }
        let ghost one = none.push(artists@);
        let (album, e1) = cut_field(line, len, e0 + 1, Ghost(one));
        if e1 == len {
            return Err(FormatError::FieldCount);
        }
        let ghost two = one.push(album@);
        let (tracks_text, e2) = cut_field(line, len, e1 + 1, Ghost(two));
        if e2 == len {
            return Err(FormatError::FieldCount);
        }
        let ghost three = two.push(tracks_text@);
        let (year_text, e3) = cut_field(line, len, e2 + 1, Ghost(three));
        if e3 == len {
            return Err(FormatError::FieldCount);
        }
        let ghost four = three.push(year_text@);
        let (date_added, e4) = cut_field(line, len, e3 + 1, Ghost(four));
        if e4 == len {
            return Err(FormatError::FieldCount);
        }
        let ghost five = four.push(date_added@);
        let (playlist, e5) = cut_field(line, len, e4 + 1, Ghost(five));
        if e5 != len {
            return Err(FormatError::FieldCount);
        }
        let tracks: u16 = match u16_from_str(tracks_text.as_str()) {
            Some(tracks) => tracks,
            None => {
                return Err(FormatError::TrackCount);
            },
        };
        let year: i32 = match i32_from_str(year_text.as_str()) {
            Some(year) => year,
            None => {
                return Err(FormatError::Year);
            },
        };
        Ok(AlbumTsv { artists, album, tracks, year, date_added, playlist })
    }
}

/// The first line of a text: what stands before its first line break.
pub open spec fn first_line(contents: Seq<char>) -> Seq<char> {
    contents.take(first_index(contents, '\n'))
}

/// The most recent record of an archive, given its text (`None` for an
/// archive that is absent): what its first line reads as. An absent or empty
/// archive has none.
pub open spec fn last_added(contents: Option<Seq<char>>) -> Result<AlbumTsvView, SyncErrorView> {
    match contents {
        None => Err(SyncErrorView::NotFound),
        Some(text) => if text.len() == 0 {
            Err(SyncErrorView::NotFound)
        } else {
            match parse(first_line(text)) {
                Ok(r) => Ok(r),
                Err(e) => Err(SyncErrorView::Format(e)),
            }
        },
    }
}

/// Records as lines of the archive, in the order given, each closed by a
/// line break.
pub open spec fn render_lines(records: Seq<AlbumTsvView>) -> Seq<char>
    decreases records.len(),
{
    if records.len() == 0 {
        Seq::empty()
    } else {
        render_lines(records.drop_last()) + render(records.last()) + seq!['\n']
    }
}

/// Reads the most recent record of the archive from the archive's text;
/// `contents` is `None` where there is no archive. Fails with `NotFound`
/// when the archive is absent or empty, and with the format error of the
/// first line when that line is not a record.
pub fn get_last_album_added(contents: Option<&str>) -> (r: Result<AlbumTsv, SyncError>)
    ensures
        match r {
            Ok(record) => last_added(opt_text(contents)) == Ok::<AlbumTsvView, SyncErrorView>(record@),
            Err(e) => last_added(opt_text(contents)) == Err::<AlbumTsvView, SyncErrorView>(e@),
        },
{
    let text: &str = match contents {
        Some(text) => text,
        None => {
            return Err(SyncError::NotFound);
        },
    };
    let len: usize = text.unicode_len();
    if len == 0 {
        return Err(SyncError::NotFound);
    }
    assert(text@.skip(0) =~= text@);
    let end: usize = find_char(text, len, 0, '\n');
    let line = text.substring_char(0, end);
    assert(line@ =~= first_line(text@));
    match AlbumTsv::from_line(line) {
        Ok(record) => Ok(record),
        Err(e) => Err(SyncError::Format(e)),
    }
}

/// The text of an archive that may be absent.
pub open spec fn opt_text(contents: Option<&str>) -> Option<Seq<char>> {
    match contents {
        Some(text) => Some(text@),
        None => None,
    }
}

/// The text of the archive once `albums` are added: their lines, in the
/// order given, ahead of everything the archive held, which is left as it
/// was.
pub fn add_albums_to_file(albums: &Vec<AlbumTsv>, contents: &str) -> (r: String)
    ensures
        r@ == render_lines(albums.deep_view()) + contents@,
{
    let ghost records = albums.deep_view();
    let mut out = String::new();
    let mut i: usize = 0;
    while i < albums.len()
        invariant
            i <= albums.len(),
            records == albums.deep_view(),
            out@ == render_lines(records.take(i as int)),
        decreases albums.len() - i,
    {
        let line = albums[i].to_line();
        proof {
            reveal_strlit("\n");
            assert(records.take(i + 1).drop_last() =~= records.take(i as int));
            assert(records.take(i + 1).last() == albums[i as int]@);
        }
        out.append(line.as_str());
        out.append("\n");
        i = i + 1;
    }
    assert(records.take(i as int) =~= records);
    out.append(contents);
    out
}

/// Lines ahead of a text begin with the line of their first record.
proof fn lemma_render_lines_head(records: Seq<AlbumTsvView>, rest: Seq<char>)
    requires
        records.len() > 0,
    ensures
        render_lines(records) + rest == render(records[0]) + seq!['\n'] + (render_lines(
            records.drop_first(),
        ) + rest),
    decreases records.len(),
{
    let last = render(records.last()) + seq!['\n'];
    if records.len() == 1 {
        assert(render_lines(records.drop_last()) =~= Seq::<char>::empty());
        assert(render_lines(records.drop_first()) =~= Seq::<char>::empty());
        assert(render_lines(records) + rest =~= render(records[0]) + seq!['\n'] + (render_lines(
            records.drop_first(),
        ) + rest));
    } else {
        let front = records.drop_last();
        lemma_render_lines_head(front, last + rest);
        assert(records.drop_first().drop_last() =~= front.drop_first());
        assert(render_lines(records) + rest =~= render_lines(front) + (last + rest));
        assert(render_lines(records.drop_first()) + rest =~= render_lines(front.drop_first()) + (
        last + rest));
    }
}

/// Once records are added, the first of them is the archive's most recent
/// record: with the lines of `records` ahead of any text, the first line
/// reads back as `records[0]`, provided that record is well formed.
pub proof fn lemma_last_added_after_add(records: Seq<AlbumTsvView>, rest: Seq<char>)
    requires
        records.len() > 0,
        well_formed(records[0]),
    ensures
        last_added(Some(render_lines(records) + rest)) == Ok::<AlbumTsvView, SyncErrorView>(
            records[0],
        ),
{
    let text = render_lines(records) + rest;
    let line = render(records[0]);
    lemma_render_lines_head(records, rest);
    lemma_render_is_line(records[0]);
    assert forall|j: int| 0 <= j < line.len() implies #[trigger] text[j] != '\n' by {
        assert(text[j] == line[j]);
        assert(line.contains(line[j]));
    }
    assert(text[line.len() as int] == '\n');
    lemma_first_index_is(text, '\n', line.len() as int);
    assert(first_line(text) =~= line);
    lemma_parse_render(records[0]);
}

} // verus!
