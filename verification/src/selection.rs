//! The visual selection: the rows between the song it started on and the
//! cursor, and the songs a command acts on.

use vstd::prelude::*;

use crate::keymap::{display_for, display_for_spec, Action};
use crate::layout::Row;
use crate::song::SongId;
use crate::strings::SELECT_SONG_FIRST;

verus! {

/// Row `i` of `rows` is the song `id`.
pub open spec fn is_song_row(rows: Seq<Row>, id: SongId, i: int) -> bool {
    0 <= i < rows.len() && (rows[i] matches Row::Song(x, _) && x == id)
}

/// Row `a` is the first row of the song `id`.
pub open spec fn first_song_row(rows: Seq<Row>, id: SongId, a: int) -> bool {
    is_song_row(rows, id, a) && forall|j: int| 0 <= j < a ==> !is_song_row(rows, id, j)
}

/// The rows the visual selection spans, lower end first: from the first
/// row of the song it started on (`anchor`) to the cursor, either way
/// round; none without a selection or a cursor, or when the song is not
/// listed.
pub open spec fn span_of(rows: Seq<Row>, anchor: Option<SongId>, cursor: Option<usize>) -> Option<(int, int)> {
    match (anchor, cursor) {
        (Some(a), Some(c)) => if exists|k: int| first_song_row(rows, a, k) {
            let k = choose|k: int| first_song_row(rows, a, k);
            if k <= c {
                Some((k, c as int))
            } else {
                Some((c as int, k))
            }
        } else {
            None
        },
        _ => None,
    }
}

/// A song has one first row.
pub proof fn lemma_first_song_row_unique(rows: Seq<Row>, id: SongId, a: int, b: int)
    requires
        first_song_row(rows, id, a),
        first_song_row(rows, id, b),
    ensures
        a == b,
{
}

/// See [`span_of`].
pub fn visual_range(rows: &[Row], anchor: SongId, cursor: Option<usize>) -> (r: Option<(usize, usize)>)
    ensures
        match r {
            Some((s, e)) => span_of(rows@, Some(anchor), cursor) == Some((s as int, e as int)),
            None => span_of(rows@, Some(anchor), cursor) is None,
        },
{
    let mut i: usize = 0;
    while i < rows.len()
        invariant
            i <= rows@.len(),
            forall|j: int| 0 <= j < i ==> !is_song_row(rows@, anchor, j),
        decreases rows@.len() - i,
    {
        let found = match &rows[i] {
            Row::Song(id, _) => *id == anchor,
            Row::Header(_) => false,
        };
        if found {
            proof {
                assert(first_song_row(rows@, anchor, i as int));
                let k = choose|k: int| first_song_row(rows@, anchor, k);
                lemma_first_song_row_unique(rows@, anchor, k, i as int);
            }
            return match cursor {
                Some(c) => if i <= c {
                    Some((i, c))
                } else {
                    Some((c, i))
                },
                None => None,
            };
        }
        i = i + 1;
    }
    proof {
        assert forall|k: int| !first_song_row(rows@, anchor, k) by {
            if first_song_row(rows@, anchor, k) {
                assert(!is_song_row(rows@, anchor, k));
            }
        }
    }
    None
}

/// The songs among `rows`, in order.
pub open spec fn songs_of_rows(rows: Seq<Row>) -> Seq<SongId>
    decreases rows.len(),
{
    if rows.len() == 0 {
        Seq::empty()
    } else {
        songs_of_rows(rows.drop_last()) + match rows.last() {
            Row::Song(id, _) => seq![id],
            Row::Header(_) => Seq::empty(),
        }
    }
}

/// The songs a command acts on: with a visual selection spanning rows
/// ([`span_of`]), the songs among them (none when the span runs past the
/// rows); otherwise the song under the cursor, if it is on a song, and the
/// visual selection is ended (the flag).
pub fn selected_song_ids(rows: &[Row], anchor: Option<SongId>, cursor: Option<usize>) -> (r: (Vec<SongId>, bool))
    ensures
        match span_of(rows@, anchor, cursor) {
            Some((s, e)) => !r.1 && r.0@ == if e < rows@.len() {
                songs_of_rows(rows@.subrange(s, e + 1))
            } else {
                Seq::empty()
            },
            None => r.1 && r.0@ == match cursor {
                Some(c) => if c < rows@.len() {
                    match rows@[c as int] {
                        Row::Song(id, _) => seq![id],
                        Row::Header(_) => Seq::empty(),
                    }
                } else {
                    Seq::empty()
                },
                None => Seq::empty(),
            },
        },
{
    let span = match anchor {
        Some(a) => visual_range(rows, a, cursor),
        None => None,
    };
    match span {
        Some((s, e)) => {
            let mut out: Vec<SongId> = Vec::new();
            if e < rows.len() {
                let mut k: usize = s;
                while k <= e
                    invariant
                        s <= k <= e + 1,
                        e < rows@.len(),
                        out@ == songs_of_rows(rows@.subrange(s as int, k as int)),
                    decreases e + 1 - k,
                {
                    proof {
                        assert(rows@.subrange(s as int, k + 1).drop_last() =~= rows@.subrange(s as int, k as int));
                        assert(rows@.subrange(s as int, k + 1).last() == rows@[k as int]);
                    }
                    match &rows[k] {
                        Row::Song(id, _) => out.push(*id),
                        Row::Header(_) => {},
                    }
                    proof {
                        assert(out@ =~= songs_of_rows(rows@.subrange(s as int, k + 1)));
                    }
                    k = k + 1;
                }
            }
            (out, false)
        },
        None => {
            let mut out: Vec<SongId> = Vec::new();
            match cursor {
                Some(c) => {
                    if c < rows.len() {
                        match &rows[c] {
                            Row::Song(id, _) => out.push(*id),
                            Row::Header(_) => {},
                        }
                    }
                },
                None => {},
            }
            proof {
                assert(out@ =~= match cursor {
                    Some(c) => if c < rows@.len() {
                        match rows@[c as int] {
                            Row::Song(id, _) => seq![id],
                            Row::Header(_) => Seq::<SongId>::empty(),
                        }
                    } else {
                        Seq::empty()
                    },
                    None => Seq::empty(),
                });
            }
            (out, true)
        },
    }
}

/// The message when a visual selection starts.
pub open spec fn visual_started_message() -> Seq<char> {
    "visual selection started \u{2014} move the cursor, then press "@ + display_for_spec(Action::OpenSongModal)
}

/// Starting or ending the visual selection, given whether the playlist
/// list is being browsed, the song the selection started on, if any, and
/// the rows with the cursor: while browsing, nothing changes and the
/// selection is said to be unavailable; an active selection ends; else a
/// selection starts on the song under the cursor, or the user is asked to
/// select a song first. Gives the selection after it and the message.
pub fn toggle_visual(browsing: bool, visual: Option<SongId>, rows: &[Row], cursor: Option<usize>) -> (r: (
    Option<SongId>,
    String,
))
    ensures
        browsing ==> r.0 == visual && r.1@ == "visual selection isn't available while browsing playlists"@,
        !browsing && visual is Some ==> r.0 is None && r.1@ == "cancelled visual selection"@,
        !browsing && visual is None ==> match cursor {
            Some(c) if c < rows@.len() && rows@[c as int] is Song => r.0 == Some(rows@[c as int]->Song_0)
                && r.1@ == visual_started_message(),
            _ => r.0 is None && r.1@ == SELECT_SONG_FIRST@,
        },
{
    if browsing {
        return (visual, "visual selection isn't available while browsing playlists".to_string());
    }
    if visual.is_some() {
        return (None, "cancelled visual selection".to_string());
    }
    let under = match cursor {
        Some(c) => if c < rows.len() {
            match &rows[c] {
                Row::Song(id, _) => Some(*id),
                Row::Header(_) => None,
            }
        } else {
            None
        },
        None => None,
    };
    match under {
        Some(id) => {
            let key = display_for(Action::OpenSongModal);
            let message = "visual selection started \u{2014} move the cursor, then press ".to_string().concat(
                key.as_str(),
            );
            (Some(id), message)
        },
        None => (None, SELECT_SONG_FIRST.to_string()),
    }
}

} // verus!
