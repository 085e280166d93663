//! The tag editor, key by key, and what comes after saving: the offer to
//! give the romanised artist to the artist's other songs.

use vstd::prelude::*;

use crate::keymap::{modal_lookup, modal_lookup_spec, KeyCode, KeyModifiers, ModalKey};
use crate::picker::{cycle_spec, field_position, lemma_field_position, lemma_first_position, without_last};
use crate::session::plural_s;
use crate::song::{decimal_digits, decimal_usize, MetadataEdits, SongId};
use crate::strings::{plural, StatusKind};
use crate::text::{chars_equal, chars_of, string_from_chars, trim, trim_seq};
use crate::youtube::FormFieldOutcome;

verus! {

/// A field of the tag editor.
#[derive(Debug, Clone, Copy, PartialEq, Eq, Structural)]
pub enum MetadataField {
    Title,
    TitleSort,
    Artist,
    ArtistSort,
    Album,
    Genre,
    Track,
    Date,
}

/// The tag editor: the song edited, the text of its tags, the romanised
/// artist it had when the editor opened, the field with focus and the
/// error shown.
#[derive(Debug, Clone)]
pub struct MetadataEditModal {
    pub song: SongId,
    pub edits: MetadataEdits,
    pub original_artist_sort: String,
    pub focused: MetadataField,
    pub error: Option<String>,
}

/// The fields that take focus, in tab order: the romanised title and
/// artist only when the title or the artist needs one.
pub open spec fn metadata_visible_spec(edits: MetadataEdits) -> Seq<MetadataField> {
    seq![MetadataField::Title] + (if vstd::utf8::is_ascii_chars(edits.title@) {
        Seq::empty()
    } else {
        seq![MetadataField::TitleSort]
    }) + seq![MetadataField::Artist] + (if vstd::utf8::is_ascii_chars(edits.artist@) {
        Seq::empty()
    } else {
        seq![MetadataField::ArtistSort]
    }) + seq![MetadataField::Album, MetadataField::Genre, MetadataField::Track, MetadataField::Date]
}

/// The text of field `f`.
pub open spec fn metadata_value(edits: MetadataEdits, f: MetadataField) -> Seq<char> {
    match f {
        MetadataField::Title => edits.title@,
        MetadataField::TitleSort => edits.title_sort@,
        MetadataField::Artist => edits.artist@,
        MetadataField::ArtistSort => edits.artist_sort@,
        MetadataField::Album => edits.album@,
        MetadataField::Genre => edits.genre@,
        MetadataField::Track => edits.track@,
        MetadataField::Date => edits.date@,
    }
}

/// `after` is `before` with the text of field `f` replaced by `v`.
pub open spec fn edits_with(after: MetadataEdits, before: MetadataEdits, f: MetadataField, v: Seq<char>) -> bool {
    let set = |g: MetadataField| if f == g {
        v
    } else {
        metadata_value(before, g)
    };
    &&& after.title@ == set(MetadataField::Title)
    &&& after.title_sort@ == set(MetadataField::TitleSort)
    &&& after.artist@ == set(MetadataField::Artist)
    &&& after.artist_sort@ == set(MetadataField::ArtistSort)
    &&& after.album@ == set(MetadataField::Album)
    &&& after.genre@ == set(MetadataField::Genre)
    &&& after.track@ == set(MetadataField::Track)
    &&& after.date@ == set(MetadataField::Date)
}

impl MetadataField {
    /// The fields of the editor that take focus, in tab order.
    pub fn visible(edits: &MetadataEdits) -> (r: Vec<MetadataField>)
        ensures
            r@ == metadata_visible_spec(*edits),
    {
        let mut out: Vec<MetadataField> = Vec::new();
        out.push(MetadataField::Title);
        if !edits.title.is_ascii() {
            out.push(MetadataField::TitleSort);
        }
        out.push(MetadataField::Artist);
        if !edits.artist.is_ascii() {
            out.push(MetadataField::ArtistSort);
        }
        out.push(MetadataField::Album);
        out.push(MetadataField::Genre);
        out.push(MetadataField::Track);
        out.push(MetadataField::Date);
        proof {
            assert(out@ =~= metadata_visible_spec(*edits));
        }
        out
    }

    /// The text of this field in `edits`.
    pub fn value(self, edits: &MetadataEdits) -> (r: &str)
        ensures
            r@ == metadata_value(*edits, self),
    {
        match self {
            MetadataField::Title => edits.title.as_str(),
            MetadataField::TitleSort => edits.title_sort.as_str(),
            MetadataField::Artist => edits.artist.as_str(),
            MetadataField::ArtistSort => edits.artist_sort.as_str(),
            MetadataField::Album => edits.album.as_str(),
            MetadataField::Genre => edits.genre.as_str(),
            MetadataField::Track => edits.track.as_str(),
            MetadataField::Date => edits.date.as_str(),
        }
    }
}

impl MetadataEditModal {
    /// The editor as it opens on `song` with the text of its tags: focus
    /// on the title, no error, and the romanised artist remembered.
    pub fn open(song: SongId, edits: MetadataEdits) -> (r: MetadataEditModal)
        ensures
            r.song == song,
            r.edits == edits,
            r.original_artist_sort@ == edits.artist_sort@,
            r.focused == MetadataField::Title,
            r.error is None,
    {
        let original_artist_sort = chars_of(edits.artist_sort.as_str());
        MetadataEditModal {
            song,
            edits,
            original_artist_sort: string_from_chars(&original_artist_sort),
            focused: MetadataField::Title,
            error: None,
        }
    }
}

fn cycle_metadata_field(fields: &Vec<MetadataField>, current: MetadataField, forward: bool) -> (r: MetadataField)
    ensures
        r == cycle_spec(fields@, current, forward),
{
    let n = fields.len();
    if n == 0 {
        return current;
    }
    let mut i: usize = 0;
    while i < n && !(fields[i] == current)
        invariant
            n == fields@.len(),
            i <= n,
            forall|k: int| 0 <= k < i ==> fields@[k] != current,
        decreases n - i,
    {
        i = i + 1;
    }
    proof {
        lemma_field_position(fields@, current);
        let p = field_position(fields@, current);
        if i < n {
            if p >= 0 {
                if p < i {
                    assert(fields@[p] == current);
                }
                if p > i {
                    lemma_first_position(fields@, current, i as int);
                }
            } else {
                assert(fields@.contains(current));
            }
        } else if p >= 0 {
            assert(fields@[p] == current);
        }
    }
    if i == n {
        fields[0]
    } else if forward {
        fields[(i + 1) % n]
    } else {
        let back = if i == 0 {
            n - 1
        } else {
            i - 1
        };
        proof {
            if i == 0 {
                vstd::arithmetic::div_mod::lemma_small_mod((n - 1) as nat, n as nat);
            } else {
                vstd::arithmetic::div_mod::lemma_mod_add_multiples_vanish((i - 1) as int, n as int);
                vstd::arithmetic::div_mod::lemma_small_mod((i - 1) as nat, n as nat);
            }
        }
        fields[back]
    }
}

fn with_value(edits: MetadataEdits, f: MetadataField, chars: &Vec<char>) -> (r: MetadataEdits)
    ensures
        edits_with(r, edits, f, chars@),
{
    let text = string_from_chars(chars);
    let mut out = edits;
    match f {
        MetadataField::Title => out.title = text,
        MetadataField::TitleSort => out.title_sort = text,
        MetadataField::Artist => out.artist = text,
        MetadataField::ArtistSort => out.artist_sort = text,
        MetadataField::Album => out.album = text,
        MetadataField::Genre => out.genre = text,
        MetadataField::Track => out.track = text,
        MetadataField::Date => out.date = text,
    }
    out
}

/// `after` is `before` with the focused field's text replaced by `v` and
/// the error cleared.
pub open spec fn metadata_edited(after: MetadataEditModal, before: MetadataEditModal, v: Seq<char>) -> bool {
    &&& edits_with(after.edits, before.edits, before.focused, v)
    &&& after.song == before.song
    &&& after.original_artist_sort == before.original_artist_sort
    &&& after.focused == before.focused
    &&& after.error is None
}

/// What a key does in the tag editor: Tab, Shift-Tab and the arrows move
/// the focus through the visible fields, wrapping, and clear the error;
/// Enter submits the editor and Esc closes it; Backspace deletes the last
/// character of the focused field and any other character, `y` and `n`
/// too, is typed into it; other keys change nothing.
pub fn metadata_form_key(modal: MetadataEditModal, code: KeyCode, mods: KeyModifiers) -> (r: FormFieldOutcome<
    MetadataEditModal,
>)
    ensures
        match modal_lookup_spec(code, mods) {
            Some(ModalKey::NextField) => r matches FormFieldOutcome::Updated(m) && m == MetadataEditModal {
                focused: cycle_spec(metadata_visible_spec(modal.edits), modal.focused, true),
                error: None,
                ..modal
            },
            Some(ModalKey::PrevField) => r matches FormFieldOutcome::Updated(m) && m == MetadataEditModal {
                focused: cycle_spec(metadata_visible_spec(modal.edits), modal.focused, false),
                error: None,
                ..modal
            },
            Some(ModalKey::Confirm) => r == FormFieldOutcome::Confirmed(modal),
            Some(ModalKey::Cancel) => r is Cancelled,
            None => match code {
                KeyCode::Backspace => r matches FormFieldOutcome::Updated(m) && metadata_edited(
                    m,
                    modal,
                    without_last(metadata_value(modal.edits, modal.focused)),
                ),
                KeyCode::Char(c) => r matches FormFieldOutcome::Updated(m) && metadata_edited(
                    m,
                    modal,
                    metadata_value(modal.edits, modal.focused).push(c),
                ),
                _ => r == FormFieldOutcome::Updated(modal),
            },
        },
{
    match modal_lookup(code, mods) {
        Some(ModalKey::NextField) => {
            let visible = MetadataField::visible(&modal.edits);
            let next = cycle_metadata_field(&visible, modal.focused, true);
            FormFieldOutcome::Updated(MetadataEditModal { focused: next, error: None, ..modal })
        },
        Some(ModalKey::PrevField) => {
            let visible = MetadataField::visible(&modal.edits);
            let prev = cycle_metadata_field(&visible, modal.focused, false);
            FormFieldOutcome::Updated(MetadataEditModal { focused: prev, error: None, ..modal })
        },
        Some(ModalKey::Confirm) => FormFieldOutcome::Confirmed(modal),
        Some(ModalKey::Cancel) => FormFieldOutcome::Cancelled,
        None => match code {
            KeyCode::Backspace | KeyCode::Char(_) => {
                let mut chars = chars_of(modal.focused.value(&modal.edits));
                match code {
                    KeyCode::Char(c) => chars.push(c),
                    _ => {
                        if chars.len() > 0 {
                            chars.pop();
                        }
                    },
                }
                let MetadataEditModal { song, edits, original_artist_sort, focused, .. } = modal;
                let edits = with_value(edits, focused, &chars);
                FormFieldOutcome::Updated(MetadataEditModal { song, edits, original_artist_sort, focused, error: None })
            },
            _ => FormFieldOutcome::Updated(modal),
        },
    }
}

/// The romanised artist to offer to the artist's other songs after a
/// save: the trimmed value saved, unless it is blank or the same as the
/// one the editor opened with.
pub open spec fn romanized_offer_spec(artist_sort: Seq<char>, original: Seq<char>) -> Option<Seq<char>> {
    let value = trim_seq(artist_sort);
    if value.len() == 0 || value == trim_seq(original) {
        None
    } else {
        Some(value)
    }
}

/// See [`romanized_offer_spec`].
pub fn romanized_offer(artist_sort: &str, original: &str) -> (r: Option<String>)
    ensures
        match r {
            Some(v) => romanized_offer_spec(artist_sort@, original@) == Some(v@),
            None => romanized_offer_spec(artist_sort@, original@) is None,
        },
{
    let value = chars_of(trim(artist_sort));
    let before = chars_of(trim(original));
    if value.len() == 0 {
        return None;
    }
    if chars_equal(value.as_slice(), before.as_slice()) {
        None
    } else {
        Some(string_from_chars(&value))
    }
}

/// The report on giving the romanised artist to `applied` other songs.
pub open spec fn romanized_applied_spec(applied: usize) -> (Seq<char>, StatusKind) {
    if applied == 0 {
        ("no other songs needed the romanized artist"@, StatusKind::Info)
    } else {
        ("applied romanized artist to "@ + decimal_digits(applied as nat) + " other song"@ + plural_s(applied),
            StatusKind::Success)
    }
}

/// See [`romanized_applied_spec`].
pub fn romanized_applied_message(applied: usize) -> (r: (String, StatusKind))
    ensures
        r.0@ == romanized_applied_spec(applied).0,
        r.1 == romanized_applied_spec(applied).1,
{
    if applied == 0 {
        return ("no other songs needed the romanized artist".to_string(), StatusKind::Info);
    }
    let out = "applied romanized artist to ".to_string();
    let out = out.concat(decimal_usize(applied).as_str());
    let out = out.concat(" other song");
    let suffix = plural(applied, "s");
    proof {
        reveal_strlit("s");
        reveal_strlit("");
    }
    (out.concat(suffix), StatusKind::Success)
}

} // verus!
