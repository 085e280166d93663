//! Geometry of the song lists: how a row's width is shared between title
//! and artist, which rows a panel shows, and how the selection moves.

use vstd::prelude::*;

use crate::calendar::{duration_text, format_duration, format_mtime, is_mtime_text};
use crate::keymap::Direction;
use crate::row_cache::{Category, Sort};
use crate::song::{display_artist, display_title, Song, SongId};
use crate::text::{chars_equal, chars_of, string_from_chars};

verus! {

/// The share of a row, in percent, the title may take when both title and
/// artist are too long.
pub const TITLE_WIDTH_RATIO: usize = 70;

/// The narrowest a scrolling label is made.
pub const MIN_MARQUEE_WIDTH: usize = 6;

/// `a - b`, or 0 when `b` is larger.
pub open spec fn sat_sub(a: int, b: int) -> int {
    if a > b {
        a - b
    } else {
        0
    }
}

pub open spec fn min_int(a: int, b: int) -> int {
    if a < b {
        a
    } else {
        b
    }
}

pub open spec fn max_int(a: int, b: int) -> int {
    if a > b {
        a
    } else {
        b
    }
}

/// The widths a title and an artist may take in a row.
pub struct TitleArtistWidths {
    pub title_max: usize,
    pub artist_max: Option<usize>,
}

/// The title's share when both are too long: the ratio of the row, but no
/// less than the marquee minimum (or the whole row when it is narrower).
pub open spec fn title_cap(available: int) -> int {
    max_int((available * TITLE_WIDTH_RATIO) / 100, min_int(MIN_MARQUEE_WIDTH as int, available))
}

/// How `available` columns are shared: each side keeps its natural width
/// when it fits its share; a side that fits gives its slack to the other;
/// when neither fits, the ratio decides. Without an artist the title gets
/// everything.
pub open spec fn widths_spec(available: int, title: int, artist: Option<usize>) -> (int, Option<int>) {
    match artist {
        None => (available, None),
        Some(a) => {
            let min = min_int(MIN_MARQUEE_WIDTH as int, available);
            let tcap = title_cap(available);
            let acap = sat_sub(available, tcap);
            if title <= tcap && a <= acap {
                (title, Some(a as int))
            } else if title <= tcap {
                (title, Some(max_int(sat_sub(available, title), min)))
            } else if a <= acap {
                (max_int(sat_sub(available, a as int), min), Some(a as int))
            } else {
                (tcap, Some(acap))
            }
        },
    }
}

/// Shares `available_for_both` columns between a title and an artist (see
/// [`widths_spec`]).
pub fn allocate_title_artist_widths(
    available_for_both: usize,
    title_natural: usize,
    artist_natural: Option<usize>,
) -> (r: TitleArtistWidths)
    requires
        available_for_both * TITLE_WIDTH_RATIO <= usize::MAX,
    ensures
        ({
            let w = widths_spec(available_for_both as int, title_natural as int, artist_natural);
            &&& r.title_max == w.0
            &&& match r.artist_max {
                Some(a) => w.1 == Some(a as int),
                None => w.1 is None,
            }
        }),
{
    let artist_natural = match artist_natural {
        None => return TitleArtistWidths { title_max: available_for_both, artist_max: None },
        Some(a) => a,
    };
    let min = if MIN_MARQUEE_WIDTH < available_for_both {
        MIN_MARQUEE_WIDTH
    } else {
        available_for_both
    };
    let ratio = (available_for_both * TITLE_WIDTH_RATIO) / 100;
    let title_cap = if ratio > min {
        ratio
    } else {
        min
    };
    let artist_cap = available_for_both.saturating_sub(title_cap);
    if title_natural <= title_cap && artist_natural <= artist_cap {
        TitleArtistWidths { title_max: title_natural, artist_max: Some(artist_natural) }
    } else if title_natural <= title_cap {
        let slack = available_for_both.saturating_sub(title_natural);
        TitleArtistWidths {
            title_max: title_natural,
            artist_max: Some(
                if slack > min {
                    slack
                } else {
                    min
                },
            ),
        }
    } else if artist_natural <= artist_cap {
        let slack = available_for_both.saturating_sub(artist_natural);
        TitleArtistWidths {
            title_max: if slack > min {
                slack
            } else {
                min
            },
            artist_max: Some(artist_natural),
        }
    } else {
        TitleArtistWidths { title_max: title_cap, artist_max: Some(artist_cap) }
    }
}

/// The rows a panel shows: `items` are the visible rows, `first` is the
/// index of the first of them, and `selected` is the selection's place
/// among them.
pub struct Viewport<'a, T> {
    pub items: &'a [T],
    pub first: usize,
    pub selected: Option<usize>,
}

/// A panel's height in rows.
pub struct PanelHeight(pub usize);

/// The first row shown: the stored `offset`, moved just enough to show the
/// selection, and never so far that the window runs past the end.
pub open spec fn viewport_first(selected: Option<usize>, offset: int, len: int, height: int) -> int {
    let start = min_int(offset, sat_sub(len, 1));
    let moved = match selected {
        Some(s) => if s < len {
            if s < start {
                s as int
            } else if s >= start + height {
                s + 1 - height
            } else {
                start
            }
        } else {
            start
        },
        None => start,
    };
    min_int(moved, sat_sub(len, min_int(height, len)))
}

/// The window of `all` a panel of `height` rows shows, given the list's
/// stored `offset` and `selected` row; also the offset to store for next
/// time. Nothing is shown when the list or the panel is empty.
pub fn viewport<'a, T>(selected: Option<usize>, offset: usize, all: &'a [T], height: usize) -> (r: (
    usize,
    Viewport<'a, T>,
))
    requires
        all@.len() > 0 ==> min_int(offset as int, all@.len() - 1) + height <= usize::MAX,
    ensures
        all@.len() == 0 || height == 0 ==> r.1.items@.len() == 0 && r.1.first == 0
            && r.1.selected is None && r.0 == offset,
        all@.len() > 0 && height > 0 ==> {
            let first = viewport_first(selected, offset as int, all@.len() as int, height as int);
            let end = min_int(first + height, all@.len() as int);
            &&& r.0 == first
            &&& r.1.first == first
            &&& r.1.items@ == all@.subrange(first, end)
            &&& match selected {
                Some(s) => if s < all@.len() {
                    r.1.selected == Some((s - first) as usize)
                } else {
                    r.1.selected is None
                },
                None => r.1.selected is None,
            }
        },
        // The selection, when it is a row of the list, is always shown.
        all@.len() > 0 && height > 0 ==> (selected matches Some(s) ==> (s < all@.len() ==> r.1.first
            <= s < r.1.first + r.1.items@.len())),
{
    let len = all.len();
    if len == 0 || height == 0 {
        return (offset, Viewport { items: vstd::slice::slice_subrange(all, 0, 0), first: 0, selected: None });
    }
    let selected = match selected {
        Some(s) => if s < len {
            Some(s)
        } else {
            None
        },
        None => None,
    };
    let mut first = if offset < len - 1 {
        offset
    } else {
        len - 1
    };
    if let Some(s) = selected {
        if s < first {
            first = s;
        } else if s >= first + height {
            first = s + 1 - height;
        }
    }
    let shown = if height < len {
        height
    } else {
        len
    };
    if first > len - shown {
        first = len - shown;
    }
    let end = if first + height < len {
        first + height
    } else {
        len
    };
    let items = vstd::slice::slice_subrange(all, first, end);
    let sel = match selected {
        Some(s) => Some(s - first),
        None => None,
    };
    (first, Viewport { items, first, selected: sel })
}

// ---------------------------------------------------------------------
// Moving the selection.


// ---------------------------------------------------------------------
// Rows of a song list.

/// A row of a song list: a group heading, or a song with how deep it is
/// indented.
#[derive(Debug, Clone, PartialEq, Eq)]
pub enum Row {
    Header(String),
    Song(SongId, usize),
}

/// What a row shows.
pub enum RowView {
    Header(Seq<char>),
    Song(SongId, usize),
}

impl View for Row {
    type V = RowView;

    open spec fn view(&self) -> RowView {
        match self {
            Row::Header(text) => RowView::Header(text@),
            Row::Song(id, depth) => RowView::Song(*id, *depth),
        }
    }
}

/// What each row of `rows` shows.
pub open spec fn row_views(rows: Seq<Row>) -> Seq<RowView> {
    Seq::new(rows.len(), |i: int| rows[i]@)
}

/// Which rows are songs.
pub open spec fn song_flags(rows: Seq<Row>) -> Seq<bool> {
    Seq::new(rows.len(), |i: int| rows[i] is Song)
}

/// How many of `flags` are set.
pub open spec fn count_set(flags: Seq<bool>) -> nat
    decreases flags.len(),
{
    if flags.len() == 0 {
        0
    } else {
        count_set(flags.drop_last()) + if flags.last() {
            1nat
        } else {
            0nat
        }
    }
}

/// How many rows are songs.
pub fn song_count(rows: &[Row]) -> (r: usize)
    ensures
        r == count_set(song_flags(rows@)),
{
    let mut count: usize = 0;
    let mut i: usize = 0;
    while i < rows.len()
        invariant
            i <= rows@.len(),
            count == count_set(song_flags(rows@).take(i as int)),
            count <= i,
        decreases rows@.len() - i,
    {
        assert(song_flags(rows@).take(i + 1).drop_last() =~= song_flags(rows@).take(i as int));
        if let Row::Song(_, _) = &rows[i] {
            count = count + 1;
        }
        i = i + 1;
    }
    assert(song_flags(rows@).take(rows@.len() as int) =~= song_flags(rows@));
    count
}

/// The first song row at or after `start`, else the first song row of
/// all, else `start`; `start` itself when it is a song row.
pub open spec fn nearest_song_row_spec(is_song: Seq<bool>, start: int) -> int {
    if is_song[start] {
        start
    } else if exists|i: int| start <= i < is_song.len() && is_song[i] {
        choose|i: int|
            start <= i < is_song.len() && is_song[i] && forall|j: int| start <= j < i ==> !is_song[j]
    } else if exists|i: int| 0 <= i < is_song.len() && is_song[i] {
        choose|i: int| 0 <= i < is_song.len() && is_song[i] && forall|j: int| 0 <= j < i ==> !is_song[j]
    } else {
        start
    }
}

/// The first song row in `[from, to)`.
fn first_song_row(rows: &[Row], from: usize, to: usize) -> (r: Option<usize>)
    requires
        from <= to <= rows@.len(),
    ensures
        match r {
            Some(i) => from <= i < to && song_flags(rows@)[i as int] && forall|j: int|
                from <= j < i ==> !song_flags(rows@)[j],
            None => forall|j: int| from <= j < to ==> !song_flags(rows@)[j],
        },
{
    let mut i = from;
    while i < to
        invariant
            from <= i <= to,
            to <= rows@.len(),
            forall|j: int| from <= j < i ==> !song_flags(rows@)[j],
        decreases to - i,
    {
        if let Row::Song(_, _) = &rows[i] {
            return Some(i);
        }
        i = i + 1;
    }
    None
}

/// The song row nearest `start` going down and wrapping to the top.
pub fn nearest_song_row(rows: &[Row], start: usize) -> (r: usize)
    requires
        start < rows@.len(),
    ensures
        r == nearest_song_row_spec(song_flags(rows@), start as int),
        r < rows@.len(),
{
    let ghost s = song_flags(rows@);
    if let Row::Song(_, _) = &rows[start] {
        return start;
    }
    match first_song_row(rows, start, rows.len()) {
        Some(i) => {
            proof {
                let c = choose|k: int| start <= k < s.len() && s[k] && forall|j: int| start <= j < k ==> !s[j];
                assert(c == i as int) by {
                    if c < i {
                        assert(!s[c]);
                    }
                    if c > i {
                        assert(!s[i as int]);
                    }
                }
            }
            i
        },
        None => match first_song_row(rows, 0, rows.len()) {
            Some(i) => {
                proof {
                    assert(!(exists|k: int| start <= k < s.len() && s[k]));
                    let c = choose|k: int| 0 <= k < s.len() && s[k] && forall|j: int| 0 <= j < k ==> !s[j];
                    assert(c == i as int) by {
                        if c < i {
                            assert(!s[c]);
                        }
                        if c > i {
                            assert(!s[i as int]);
                        }
                    }
                }
                i
            },
            None => start,
        },
    }
}

/// The songs with their artists, as text.
pub open spec fn artist_views(songs: Seq<(SongId, String)>) -> Seq<(SongId, Seq<char>)> {
    Seq::new(songs.len(), |i: int| (songs[i].0, songs[i].1@))
}

/// The rows of songs grouped by artist, the songs already in order: a
/// heading whenever the artist differs from the song before.
pub open spec fn artist_rows_spec(songs: Seq<(SongId, Seq<char>)>) -> Seq<RowView>
    decreases songs.len(),
{
    if songs.len() == 0 {
        Seq::empty()
    } else {
        let last = songs.last();
        let heading = if songs.len() == 1 || songs[songs.len() - 2].1 != last.1 {
            seq![RowView::Header(last.1)]
        } else {
            Seq::empty()
        };
        artist_rows_spec(songs.drop_last()) + heading + seq![RowView::Song(last.0, 0)]
    }
}

/// See [`artist_rows_spec`].
pub fn artist_rows(songs: &[(SongId, String)]) -> (r: Vec<Row>)
    ensures
        row_views(r@) == artist_rows_spec(artist_views(songs@)),
{
    let ghost all = artist_views(songs@);
    let mut rows: Vec<Row> = Vec::new();
    let mut i: usize = 0;
    while i < songs.len()
        invariant
            i <= songs@.len(),
            all == artist_views(songs@),
            row_views(rows@) == artist_rows_spec(all.take(i as int)),
        decreases songs@.len() - i,
    {
        let ghost before = rows@;
        let ghost t = all.take(i + 1);
        assert(t.drop_last() =~= all.take(i as int));
        let artist = chars_of(songs[i].1.as_str());
        let differs = if i == 0 {
            true
        } else {
            let previous = chars_of(songs[i - 1].1.as_str());
            !chars_equal(previous.as_slice(), artist.as_slice())
        };
        if i > 0 {
            assert(t[t.len() - 2] == all[i - 1]);
        }
        if differs {
            rows.push(Row::Header(string_from_chars(&artist)));
        }
        rows.push(Row::Song(songs[i].0, 0));
        proof {
            let heading = if differs {
                seq![RowView::Header(all[i as int].1)]
            } else {
                Seq::<RowView>::empty()
            };
            assert(row_views(rows@) =~= row_views(before) + heading + seq![RowView::Song(all[i as int].0, 0)]);
        }
        i = i + 1;
    }
    assert(all.take(all.len() as int) =~= all);
    rows
}

/// How many leading directories two paths share.
pub open spec fn shared_depth(a: Seq<Seq<char>>, b: Seq<Seq<char>>) -> nat
    decreases a.len(),
{
    if a.len() == 0 || b.len() == 0 || a[0] != b[0] {
        0
    } else {
        1 + shared_depth(a.drop_first(), b.drop_first())
    }
}

/// Two spaces for each level of `depth`.
pub open spec fn indent(depth: nat) -> Seq<char>
    decreases depth,
{
    if depth == 0 {
        Seq::empty()
    } else {
        indent((depth - 1) as nat) + "  "@
    }
}

/// The headings for the directories of `dirs` from depth `from` on, each
/// indented by its depth.
pub open spec fn dir_headings(dirs: Seq<Seq<char>>, from: int) -> Seq<RowView> {
    Seq::new((dirs.len() - from) as nat, |k: int| RowView::Header(indent((from + k) as nat) + dirs[from + k]))
}

/// The songs with the directories they lie in, as text.
pub open spec fn dir_views(songs: Seq<(SongId, Vec<String>)>) -> Seq<(SongId, Seq<Seq<char>>)> {
    Seq::new(songs.len(), |i: int| (songs[i].0, Seq::new(songs[i].1@.len(), |k: int| songs[i].1@[k]@)))
}

/// The rows of songs grouped by directory, the songs already in order: a
/// heading for each directory not shared with the song before, then the
/// song, indented by its depth.
pub open spec fn dir_rows_spec(songs: Seq<(SongId, Seq<Seq<char>>)>) -> Seq<RowView>
    decreases songs.len(),
{
    if songs.len() == 0 {
        Seq::empty()
    } else {
        let last = songs.last();
        let before = if songs.len() == 1 {
            Seq::empty()
        } else {
            songs[songs.len() - 2].1
        };
        dir_rows_spec(songs.drop_last()) + dir_headings(last.1, shared_depth(last.1, before) as int)
            + seq![RowView::Song(last.0, last.1.len() as usize)]
    }
}

/// The text of each string of `v`.
pub open spec fn string_views(v: Seq<String>) -> Seq<Seq<char>> {
    Seq::new(v.len(), |k: int| v[k]@)
}

/// How many leading directories `a` and `b` share.
fn shared_dirs(a: &Vec<String>, b: &Vec<String>) -> (r: usize)
    ensures
        r == shared_depth(string_views(a@), string_views(b@)),
{
    let ghost x = string_views(a@);
    let ghost y = string_views(b@);
    assert(x.skip(0) =~= x);
    assert(y.skip(0) =~= y);
    let mut k: usize = 0;
    while k < a.len() && k < b.len()
        invariant
            k <= a@.len(),
            k <= b@.len(),
            x == string_views(a@),
            y == string_views(b@),
            shared_depth(x, y) == k + shared_depth(x.skip(k as int), y.skip(k as int)),
        decreases a@.len() - k,
    {
        let same = chars_equal(chars_of(a[k].as_str()).as_slice(), chars_of(b[k].as_str()).as_slice());
        assert(x.skip(k as int)[0] == a@[k as int]@);
        assert(y.skip(k as int)[0] == b@[k as int]@);
        if !same {
            return k;
        }
        assert(x.skip(k as int).drop_first() =~= x.skip(k + 1));
        assert(y.skip(k as int).drop_first() =~= y.skip(k + 1));
        k = k + 1;
    }
    k
}

/// `name` indented by two spaces for each level of `depth`.
fn indented(depth: usize, name: &str) -> (r: String)
    ensures
        r@ == indent(depth as nat) + name@,
{
    let mut out = String::new();
    let mut d: usize = 0;
    while d < depth
        invariant
            d <= depth,
            out@ == indent(d as nat),
        decreases depth - d,
    {
        out = out.concat("  ");
        d = d + 1;
    }
    out.concat(name)
}

/// See [`dir_rows_spec`].
pub fn dir_rows(songs: &[(SongId, Vec<String>)]) -> (r: Vec<Row>)
    ensures
        row_views(r@) == dir_rows_spec(dir_views(songs@)),
{
    let ghost all = dir_views(songs@);
    let mut rows: Vec<Row> = Vec::new();
    let mut i: usize = 0;
    while i < songs.len()
        invariant
            i <= songs@.len(),
            all == dir_views(songs@),
            row_views(rows@) == dir_rows_spec(all.take(i as int)),
        decreases songs@.len() - i,
    {
        let ghost t = all.take(i + 1);
        assert(t.drop_last() =~= all.take(i as int));
        let dirs = &songs[i].1;
        assert(string_views(dirs@) =~= all[i as int].1);
        let shared = if i == 0 {
            0
        } else {
            assert(string_views(songs@[i - 1].1@) =~= all[i - 1].1);
            shared_dirs(dirs, &songs[i - 1].1)
        };
        let ghost previous = if i == 0 {
            Seq::<Seq<char>>::empty()
        } else {
            all[i - 1].1
        };
        assert(shared == shared_depth(all[i as int].1, previous));
        assert(shared <= dirs@.len()) by {
            lemma_shared_depth_bounded(all[i as int].1, previous);
        }
        let ghost before = rows@;
        let mut d = shared;
        while d < dirs.len()
            invariant
                shared <= d <= dirs@.len(),
                string_views(dirs@) == all[i as int].1,
                row_views(rows@) == row_views(before) + dir_headings(all[i as int].1, shared as int).take(
                    d - shared,
                ),
            decreases dirs@.len() - d,
        {
            let heading = indented(d, dirs[d].as_str());
            proof {
                let hd = dir_headings(all[i as int].1, shared as int);
                assert(all[i as int].1[d as int] == dirs@[d as int]@);
                assert(hd[d - shared] == RowView::Header(indent(d as nat) + dirs@[d as int]@));
                assert(hd.take(d + 1 - shared) =~= hd.take(d - shared).push(hd[d - shared]));
            }
            let ghost old_rows = rows@;
            let ghost text = heading@;
            rows.push(Row::Header(heading));
            proof {
                let hd = dir_headings(all[i as int].1, shared as int);
                assert(row_views(rows@) =~= row_views(old_rows).push(RowView::Header(text)));
                assert(row_views(before) + hd.take(d + 1 - shared) =~= (row_views(before) + hd.take(
                    d - shared,
                )).push(RowView::Header(text)));
            }
            d = d + 1;
        }
        assert(dir_headings(all[i as int].1, shared as int).take(dirs@.len() - shared) =~= dir_headings(
            all[i as int].1,
            shared as int,
        ));
        rows.push(Row::Song(songs[i].0, dirs.len()));
        assert(row_views(rows@) =~= row_views(before) + dir_headings(all[i as int].1, shared as int) + seq![
            RowView::Song(all[i as int].0, all[i as int].1.len() as usize),
        ]);
        i = i + 1;
    }
    assert(all.take(all.len() as int) =~= all);
    rows
}

proof fn lemma_shared_depth_bounded(a: Seq<Seq<char>>, b: Seq<Seq<char>>)
    ensures
        shared_depth(a, b) <= a.len(),
        shared_depth(a, b) <= b.len(),
    decreases a.len(),
{
    if a.len() > 0 && b.len() > 0 && a[0] == b[0] {
        lemma_shared_depth_bounded(a.drop_first(), b.drop_first());
    }
}

/// The first index in `[from, to)` whose flag is set.
fn first_set(flags: &[bool], from: usize, to: usize) -> (r: Option<usize>)
    requires
        from <= to <= flags@.len(),
    ensures
        match r {
            Some(i) => from <= i < to && flags@[i as int] && forall|j: int| from <= j < i ==> !flags@[j],
            None => forall|j: int| from <= j < to ==> !flags@[j],
        },
{
    let mut i = from;
    while i < to
        invariant
            from <= i <= to,
            to <= flags@.len(),
            forall|j: int| from <= j < i ==> !flags@[j],
        decreases to - i,
    {
        if flags[i] {
            return Some(i);
        }
        i = i + 1;
    }
    None
}

/// The last index in `[from, to)` whose flag is set.
fn last_set(flags: &[bool], from: usize, to: usize) -> (r: Option<usize>)
    requires
        from <= to <= flags@.len(),
    ensures
        match r {
            Some(i) => from <= i < to && flags@[i as int] && forall|j: int| i < j < to ==> !flags@[j],
            None => forall|j: int| from <= j < to ==> !flags@[j],
        },
{
    let mut i = to;
    while i > from
        invariant
            from <= i <= to,
            to <= flags@.len(),
            forall|j: int| i <= j < to ==> !flags@[j],
        decreases i,
    {
        if flags[i - 1] {
            return Some(i - 1);
        }
        i = i - 1;
    }
    None
}

/// `value` wrapped into `[0, len)` (its Euclidean remainder).
fn wrap_index(value: isize, len: usize) -> (r: usize)
    requires
        0 < len,
    ensures
        r as int == value as int % len as int,
        r < len,
{
    if value >= 0 {
        let r = (value as usize) % len;
        r
    } else {
        let below = (-(value + 1)) as usize;
        let rem = below % len;
        proof {
            let m = len as int;
            let q = below as int / m;
            vstd::arithmetic::div_mod::lemma_fundamental_div_mod(below as int, m);
            assert(value as int == (-q - 1) * m + (m - 1 - rem)) by (nonlinear_arith)
                requires
                    below as int == m * q + rem,
                    value as int == -(below as int) - 1,
            ;
            vstd::arithmetic::div_mod::lemma_fundamental_div_mod_converse(
                value as int,
                m,
                -q - 1,
                m - 1 - rem,
            );
        }
        len - 1 - rem
    }
}

/// The index `k` steps of `delta` from `start`, wrapping in `len`.
pub open spec fn wrapped_step(start: int, delta: int, len: int, k: int) -> int {
    (start + k * delta) % len
}

/// Steps from `start` by `delta`, wrapping in `len`, until a selectable row
/// or `start` itself is reached.
pub fn wrapping_selectable_index(start: usize, delta: isize, len: usize, selectable: &[bool]) -> (r:
    usize)
    requires
        0 < len <= isize::MAX,
        start < len,
        selectable@.len() == len,
        len + delta <= isize::MAX,
    ensures
        r < len,
        exists|k: int|
            1 <= k <= len && r == wrapped_step(start as int, delta as int, len as int, k) && (r == start
                || selectable@[r as int]) && forall|j: int|
                1 <= j < k ==> #[trigger] wrapped_step(start as int, delta as int, len as int, j) != start
                    && !selectable@[wrapped_step(start as int, delta as int, len as int, j)],
{
    let mut idx = start as isize;
    let mut k: usize = 0;
    proof {
        vstd::arithmetic::div_mod::lemma_small_mod(start as nat, len as nat);
    }
    loop
        invariant
            0 < len <= isize::MAX,
            start < len,
            selectable@.len() == len,
            len + delta <= isize::MAX,
            k < len,
            0 <= idx < len,
            idx == wrapped_step(start as int, delta as int, len as int, k as int),
            forall|j: int|
                1 <= j <= k ==> #[trigger] wrapped_step(start as int, delta as int, len as int, j) != start
                    && !selectable@[wrapped_step(start as int, delta as int, len as int, j)],
        decreases len - k,
    {
        let sum = idx + delta;
        let next = wrap_index(sum, len) as isize;
        proof {
            let m = len as int;
            assert(wrapped_step(start as int, delta as int, m, k + 1) == (delta + (start + k * delta) % m) % m) by {
                vstd::arithmetic::div_mod::lemma_add_mod_noop_right(delta as int, start + k * delta, m);
                assert(start + (k + 1) * delta == delta + (start + k * delta)) by (nonlinear_arith);
            }
        }
        k = k + 1;
        idx = next;
        if idx == start as isize || selectable[idx as usize] {
            return idx as usize;
        }
        proof {
            if k == len {
                let m = len as int;
                assert(wrapped_step(start as int, delta as int, m, m) == start) by {
                    assert(start + m * delta == m * delta + start) by (nonlinear_arith);
                    vstd::arithmetic::div_mod::lemma_mod_multiples_vanish(delta as int, start as int, m);
                    vstd::arithmetic::div_mod::lemma_small_mod(start as nat, len as nat);
                }
            }
        }
    }
}

/// The selection after moving `delta` rows in a list of `len`, wrapping
/// (from the top when nothing is selected); unchanged when the list is
/// empty.
pub fn move_wrapping(selected: Option<usize>, len: usize, delta: isize) -> (r: Option<usize>)
    requires
        len <= isize::MAX,
        match selected {
            Some(s) => s + delta >= isize::MIN && s + delta <= isize::MAX && s <= isize::MAX,
            None => true,
        },
    ensures
        len == 0 ==> r == selected,
        len > 0 ==> r == Some(
            ((match selected {
                Some(s) => s as int,
                None => 0,
            } + delta) % (len as int)) as usize,
        ),
{
    if len == 0 {
        return selected;
    }
    let start: isize = match selected {
        Some(s) => s as isize,
        None => 0,
    };
    Some(wrap_index(start + delta, len))
}

/// The selectable row nearest `idx` (clamped into the list), looking one
/// row further down before one row further up at each distance.
pub open spec fn is_nearest_selectable(selectable: Seq<bool>, idx: int, r: Option<usize>) -> bool {
    let len = selectable.len() as int;
    let i = min_int(idx, len - 1);
    match r {
        Some(x) => {
            let d = if x >= i {
                x - i
            } else {
                i - x
            };
            &&& 0 <= x < len
            &&& selectable[x as int]
            &&& forall|y: int| 0 <= y < len && (if y >= i { y - i } else { i - y }) < d ==> !selectable[y]
            &&& (x < i ==> !(i + d < len && selectable[i + d]))
        },
        None => forall|y: int| 0 <= y < len ==> !selectable[y],
    }
}

/// The selectable row nearest `idx` (see [`is_nearest_selectable`]).
pub fn nearest_selectable(idx: usize, len: usize, selectable: &[bool]) -> (r: Option<usize>)
    requires
        selectable@.len() == len,
    ensures
        is_nearest_selectable(selectable@, idx as int, r),
{
    if len == 0 {
        return None;
    }
    let i = if idx < len - 1 {
        idx
    } else {
        len - 1
    };
    let mut radius: usize = 0;
    while radius < len
        invariant
            selectable@.len() == len,
            len > 0,
            i == min_int(idx as int, len - 1),
            radius <= len,
            forall|y: int| 0 <= y < len && (if y >= i { y - i } else { i - y }) < radius ==> !selectable@[y],
        decreases len - radius,
    {
        if radius < len - i && selectable[i + radius] {
            return Some(i + radius);
        }
        if radius <= i && selectable[i - radius] {
            return Some(i - radius);
        }
        radius = radius + 1;
    }
    None
}


/// Where a page jump lands: the last selectable row shown (going forwards)
/// or the first (going backwards), with the window scrolled to centre it;
/// when no row shown is selectable, the window stays and the nearest
/// selectable row is chosen (the first row when there is none).
#[verifier::rlimit(30)]
pub fn compute_jump(
    offset: usize,
    len: usize,
    height: usize,
    direction: Direction,
    selectable: &[bool],
) -> (r: (usize, usize))
    requires
        len > 0,
        selectable@.len() == len,
        len + height <= usize::MAX,
    ensures
        ({
            let h = max_int(height as int, 1);
            let off = min_int(offset as int, len - 1);
            let last = min_int(off + h - 1, len - 1);
            let max_off = sat_sub(len as int, min_int(h, len as int));
            let anchor = r.1 as int;
            let found = exists|a: int| off <= a <= last && selectable@[a];
            &&& found ==> {
                &&& off <= anchor <= last
                &&& selectable@[anchor]
                &&& direction == Direction::Forwards ==> forall|j: int| anchor < j <= last ==> !selectable@[j]
                &&& direction == Direction::Backwards ==> forall|j: int| off <= j < anchor ==> !selectable@[j]
                &&& r.0 == min_int(sat_sub(anchor, h / 2), max_off)
            }
            &&& !found ==> {
                &&& r.0 == off
                &&& exists|n: Option<usize>|
                    is_nearest_selectable(selectable@, off, n) && r.1 == match n {
                        Some(x) => x,
                        None => 0,
                    }
            }
        }),
{
    let ghost old_height = height;
    let ghost old_offset = offset;
    let height = if height > 1 {
        height
    } else {
        1
    };
    let offset = if offset < len - 1 {
        offset
    } else {
        len - 1
    };
    let center = height / 2;
    let last_visible = if offset + height - 1 < len - 1 {
        offset + height - 1
    } else {
        len - 1
    };
    let shown = if height < len {
        height
    } else {
        len
    };
    let max_offset = len - shown;
    let ghost h = max_int(old_height as int, 1);
    assert(height == h);
    assert(offset == min_int(old_offset as int, len - 1));
    assert(last_visible == min_int(offset + h - 1, len - 1));
    assert(max_offset == sat_sub(len as int, min_int(h, len as int)));
    let anchor: Option<usize> = match direction {
        Direction::Forwards => last_set(selectable, offset, last_visible + 1),
        Direction::Backwards => first_set(selectable, offset, last_visible + 1),
    };
    match anchor {
        Some(a) => {
            let back = a.saturating_sub(center);
            let new_offset = if back < max_offset {
                back
            } else {
                max_offset
            };
            assert(offset <= a <= last_visible && selectable@[a as int]);
            assert(back == sat_sub(a as int, h / 2));
            assert(new_offset == min_int(sat_sub(a as int, h / 2), max_offset as int));
            (new_offset, a)
        },
        None => {
            let n = nearest_selectable(offset, len, selectable);
            let pick = match n {
                Some(x) => x,
                None => 0,
            };
            assert(!(exists|a: int| offset <= a <= last_visible && selectable@[a]));
            assert(is_nearest_selectable(selectable@, offset as int, n));
            (offset, pick)
        },
    }
}

// ---------------------------------------------------------------------
// What a song row says.

/// What a song row shows: its title, its artist unless the rows are
/// grouped by artist, and a detail for the order the rows are in.
pub struct SongLabel<'a> {
    pub title: &'a str,
    pub artist: Option<&'a str>,
    pub detail: Option<String>,
}

/// The label of `song` in rows grouped by `category` (none for a
/// playlist) and ordered by `sort`: the length when ordered by duration,
/// the date of the last change when ordered by it.
pub fn label_for<'a>(song: &'a Song, category: Option<Category>, sort: Sort) -> (r: SongLabel<'a>)
    ensures
        r.title@ == display_title(song.path_view(), song.metadata_view()),
        match r.artist {
            Some(a) => category != Some(Category::Artist) && a@ == display_artist(song.metadata_view()),
            None => category == Some(Category::Artist),
        },
        match sort {
            Sort::Duration => r.detail matches Some(t) && t@ == duration_text(
                song.metadata_view().duration_secs as nat,
            ),
            Sort::DateModified => r.detail matches Some(t) && is_mtime_text(song.modified_view(), t@),
            _ => r.detail is None,
        },
{
    let detail = match sort {
        Sort::Duration => Some(format_duration(song.metadata().duration_secs)),
        Sort::DateModified => Some(format_mtime(song.modified())),
        Sort::Title | Sort::Artist | Sort::Path => None,
    };
    let artist = match category {
        Some(Category::Artist) => None,
        _ => Some(song.artist()),
    };
    SongLabel { title: song.title(), artist, detail }
}

// ---------------------------------------------------------------------
// Scrolling labels.

/// How long, in milliseconds, a scrolling label rests at its start.
pub const MARQUEE_PAUSE_MILLIS: u128 = 4500;

/// How long, in milliseconds, a scrolling label shows each position.
pub const MARQUEE_STEP_MILLIS: u128 = 150;

/// The position a label of `loop_len` characters has scrolled to after
/// `elapsed` milliseconds: it rests at the start, then moves one character
/// per step, and starts over once it has been round.
pub open spec fn marquee_offset_spec(elapsed: u128, loop_len: usize) -> int {
    let cycle: int = MARQUEE_PAUSE_MILLIS + loop_len * MARQUEE_STEP_MILLIS;
    let t: int = (elapsed as int) % cycle;
    if t < MARQUEE_PAUSE_MILLIS {
        0
    } else {
        (t - MARQUEE_PAUSE_MILLIS) / MARQUEE_STEP_MILLIS as int
    }
}

/// See [`marquee_offset_spec`]; the position is always within the label.
pub fn marquee_scroll_offset(elapsed: u128, loop_len: usize) -> (r: usize)
    ensures
        r == marquee_offset_spec(elapsed, loop_len),
        loop_len == 0 ==> r == 0,
        loop_len > 0 ==> r < loop_len,
{
    let steps: u128 = loop_len as u128 * MARQUEE_STEP_MILLIS;
    let cycle: u128 = MARQUEE_PAUSE_MILLIS + steps;
    let t: u128 = elapsed % cycle;
    if t < MARQUEE_PAUSE_MILLIS {
        0
    } else {
        let offset: u128 = (t - MARQUEE_PAUSE_MILLIS) / MARQUEE_STEP_MILLIS;
        assert(offset < loop_len) by (nonlinear_arith)
            requires
                offset == (t - 4500) / 150,
                t < 4500 + steps,
                t >= 4500,
                steps == loop_len * 150,
        ;
        offset as usize
    }
}

} // verus!
