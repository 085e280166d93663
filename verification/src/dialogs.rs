//! The small dialogs and inputs of the player, key by key: the questions
//! asked before quitting and before removing a song, the directory and the
//! search being typed, and the number typed to jump ahead in the queue.

use vstd::prelude::*;

use crate::keymap::{
    confirm_lookup, confirm_lookup_spec, display_for, display_for_spec, modal_lookup, modal_lookup_spec, Action,
    ConfirmChoice, KeyCode, KeyModifiers, ModalKey,
};
use crate::picker::without_last;
use crate::playlist::{holds, without_song, Mutated, PlaylistId, PlaylistStore, PlaylistView};
use crate::song::SongId;
use crate::strings::{StatusKind, UNTITLED_SONG};
use crate::text::{chars_of, string_from_chars};

verus! {

/// What a key does to a yes-or-no question.
#[derive(Debug, Clone, Copy, PartialEq, Eq, Structural)]
pub enum ConfirmOutcome {
    Open,
    Cancelled,
    Confirmed,
}

/// Yes confirms, no cancels, any other key leaves the question open.
pub open spec fn confirm_outcome_spec(code: KeyCode, mods: KeyModifiers) -> ConfirmOutcome {
    match confirm_lookup_spec(code, mods) {
        Some(ConfirmChoice::Yes) => ConfirmOutcome::Confirmed,
        Some(ConfirmChoice::No) => ConfirmOutcome::Cancelled,
        None => ConfirmOutcome::Open,
    }
}

/// See [`confirm_outcome_spec`].
pub fn confirm_outcome(code: KeyCode, mods: KeyModifiers) -> (r: ConfirmOutcome)
    ensures
        r == confirm_outcome_spec(code, mods),
{
    match confirm_lookup(code, mods) {
        Some(ConfirmChoice::Yes) => ConfirmOutcome::Confirmed,
        Some(ConfirmChoice::No) => ConfirmOutcome::Cancelled,
        None => ConfirmOutcome::Open,
    }
}

/// The question before quitting: a cancelled quit is reported; a
/// confirmed one leaves the saving and the exit to the program.
pub fn confirm_quit_step(code: KeyCode, mods: KeyModifiers) -> (r: (ConfirmOutcome, Option<(String, StatusKind)>))
    ensures
        r.0 == confirm_outcome_spec(code, mods),
        r.0 == ConfirmOutcome::Cancelled ==> (r.1 matches Some((t, k)) && t@ == "quit cancelled"@ && k
            == StatusKind::Info),
        r.0 != ConfirmOutcome::Cancelled ==> r.1 is None,
{
    let outcome = confirm_outcome(code, mods);
    match outcome {
        ConfirmOutcome::Cancelled => (outcome, Some(("quit cancelled".to_string(), StatusKind::Info))),
        _ => (outcome, None),
    }
}

/// How a song is named in a report: by its label, or as "this song".
pub open spec fn label_or_untitled(label: Option<&str>) -> Seq<char> {
    match label {
        Some(l) => l@,
        None => UNTITLED_SONG@,
    }
}

/// The question before removing `song` from `playlist`: yes removes it
/// and reports it under `label`, or reports that it could not be removed
/// (it is not there); no closes the question; other keys leave it open.
pub fn confirm_remove_step(
    code: KeyCode,
    mods: KeyModifiers,
    playlists: &mut PlaylistStore,
    playlist: PlaylistId,
    song: SongId,
    label: Option<&str>,
) -> (r: (ConfirmOutcome, Option<(String, StatusKind)>))
    ensures
        r.0 == confirm_outcome_spec(code, mods),
        r.0 != ConfirmOutcome::Confirmed ==> r.1 is None && *final(playlists) == *old(playlists),
        r.0 == ConfirmOutcome::Confirmed && holds(old(playlists).playlists_view(), playlist, song) ==> {
            &&& final(playlists).playlists_view() == old(playlists).playlists_view().insert(
                playlist,
                PlaylistView {
                    songs: without_song(old(playlists).playlists_view()[playlist].songs, song),
                    ..old(playlists).playlists_view()[playlist]
                },
            )
            &&& final(playlists).sorted_view() == old(playlists).sorted_view()
            &&& r.1 matches Some((t, k)) && t@ == "removed "@ + label_or_untitled(label) && k
                == StatusKind::Success
        },
        r.0 == ConfirmOutcome::Confirmed && !holds(old(playlists).playlists_view(), playlist, song) ==> {
            &&& *final(playlists) == *old(playlists)
            &&& r.1 matches Some((t, k)) && t@ == "failed to remove song from playlist"@ && k
                == StatusKind::Error
        },
{
    let outcome = confirm_outcome(code, mods);
    match outcome {
        ConfirmOutcome::Confirmed => {},
        _ => return (outcome, None),
    }
    match playlists.remove_song(playlist, song) {
        Mutated::Yes => {
            let name = match label {
                Some(l) => l,
                None => UNTITLED_SONG,
            };
            let message = "removed ".to_string().concat(name);
            (outcome, Some((message, StatusKind::Success)))
        },
        Mutated::No => (outcome, Some(("failed to remove song from playlist".to_string(), StatusKind::Error))),
    }
}

/// What a key does to the directory being typed.
#[derive(Debug, Clone, PartialEq, Eq)]
pub enum DirInputOutcome {
    /// Scan the directory typed.
    Scan(String),
    /// Stop typing, going back to the directory loaded.
    Cancel,
    /// Go on typing this.
    Editing(String),
}

/// The directory being typed: Enter scans it, Esc cancels, Backspace and
/// characters edit it, and every other key leaves it as it is.
pub fn dir_input_step(input: String, code: KeyCode, mods: KeyModifiers) -> (r: DirInputOutcome)
    ensures
        match modal_lookup_spec(code, mods) {
            Some(ModalKey::Confirm) => r matches DirInputOutcome::Scan(s) && s@ == input@,
            Some(ModalKey::Cancel) => r is Cancel,
            Some(_) => r matches DirInputOutcome::Editing(s) && s@ == input@,
            None => r matches DirInputOutcome::Editing(s) && s@ == match code {
                KeyCode::Backspace => without_last(input@),
                KeyCode::Char(c) => input@.push(c),
                _ => input@,
            },
        },
{
    match modal_lookup(code, mods) {
        Some(ModalKey::Confirm) => DirInputOutcome::Scan(input),
        Some(ModalKey::Cancel) => DirInputOutcome::Cancel,
        Some(_) => DirInputOutcome::Editing(input),
        None => {
            let mut chars = chars_of(input.as_str());
            match code {
                KeyCode::Backspace => {
                    if chars.len() > 0 {
                        chars.pop();
                    }
                },
                KeyCode::Char(c) => chars.push(c),
                _ => {},
            }
            DirInputOutcome::Editing(string_from_chars(&chars))
        },
    }
}

/// The search after a key: its query, whether it stays open, and whether
/// the query changed (which ends a visual selection and moves the
/// selection onto what still shows).
#[derive(Debug, Clone, PartialEq, Eq)]
pub struct SearchStep {
    pub query: String,
    pub open: bool,
    pub changed: bool,
}

/// A key while searching, `filtering` telling whether the query filters
/// anything: Enter closes the search, keeping the query; Esc clears a
/// query that filters, and otherwise closes the search; Backspace and
/// characters edit the query; other keys change nothing.
pub fn search_key_step(query: String, filtering: bool, code: KeyCode) -> (r: SearchStep)
    ensures
        match code {
            KeyCode::Enter => !r.open && !r.changed && r.query@ == query@,
            KeyCode::Esc => if filtering {
                r.open && r.changed && r.query@.len() == 0
            } else {
                !r.open && !r.changed && r.query@ == query@
            },
            KeyCode::Backspace => r.open && r.changed && r.query@ == without_last(query@),
            KeyCode::Char(c) => r.open && r.changed && r.query@ == query@.push(c),
            _ => r.open && !r.changed && r.query@ == query@,
        },
{
    match code {
        KeyCode::Enter => SearchStep { query, open: false, changed: false },
        KeyCode::Esc => if filtering {
            SearchStep { query: String::new(), open: true, changed: true }
        } else {
            SearchStep { query, open: false, changed: false }
        },
        KeyCode::Backspace => {
            let mut chars = chars_of(query.as_str());
            if chars.len() > 0 {
                chars.pop();
            }
            SearchStep { query: string_from_chars(&chars), open: true, changed: true }
        },
        KeyCode::Char(c) => {
            let mut chars = chars_of(query.as_str());
            chars.push(c);
            SearchStep { query: string_from_chars(&chars), open: true, changed: true }
        },
        _ => SearchStep { query, open: true, changed: false },
    }
}

/// The most digits the number typed to jump ahead may have.
pub const MAX_PENDING_NUMBER_DIGITS: usize = 3;

/// The message while a number is being typed to jump ahead in the queue.
pub open spec fn jump_message(pending: Seq<char>) -> Seq<char> {
    "jump to Up Next #"@ + pending + " (press "@ + display_for_spec(Action::NextOrJump) + ", <Esc> to cancel)"@
}

/// Whether `code` is a digit key.
pub open spec fn digit_key(code: KeyCode) -> bool {
    code matches KeyCode::Char(c) && '0' <= c <= '9'
}

/// A key outside any dialog, before it is looked up: the number typed to
/// jump ahead after it, the message to show, whether the key goes on to
/// be looked up, and whether a number had been typed before it.
#[derive(Debug, Clone, PartialEq, Eq)]
pub struct PendingNumberStep {
    pub pending: String,
    pub status: Option<String>,
    pub dispatch: bool,
    pub had_pending_number: bool,
}

/// A digit is added to the number typed to jump ahead in the queue, up to
/// [`MAX_PENDING_NUMBER_DIGITS`] digits, with a message on how to jump,
/// and goes no further; any other key but `n` drops the number; keys
/// other than digits go on to be looked up.
pub fn pending_number_step(pending: &str, code: KeyCode) -> (r: PendingNumberStep)
    ensures
        r.had_pending_number == (pending@.len() > 0),
        digit_key(code) ==> !r.dispatch && if pending@.len() < MAX_PENDING_NUMBER_DIGITS {
            &&& r.pending@ == pending@.push(code->Char_0)
            &&& r.status matches Some(t) && t@ == jump_message(pending@.push(code->Char_0))
        } else {
            r.pending@ == pending@ && r.status is None
        },
        !digit_key(code) ==> r.dispatch && r.status is None && r.pending@ == if code == KeyCode::Char('n') {
            pending@
        } else {
            Seq::empty()
        },
{
    let mut chars = chars_of(pending);
    let had_pending_number = chars.len() > 0;
    match code {
        KeyCode::Char(c) => {
            if '0' <= c && c <= '9' {
                if chars.len() < MAX_PENDING_NUMBER_DIGITS {
                    chars.push(c);
                    let typed = string_from_chars(&chars);
                    let key = display_for(Action::NextOrJump);
                    let message = "jump to Up Next #".to_string().concat(typed.as_str()).concat(" (press ").concat(
                        key.as_str(),
                    ).concat(", <Esc> to cancel)");
                    return PendingNumberStep { pending: typed, status: Some(message), dispatch: false, had_pending_number };
                }
                return PendingNumberStep {
                    pending: string_from_chars(&chars),
                    status: None,
                    dispatch: false,
                    had_pending_number,
                };
            }
            if c == 'n' {
                return PendingNumberStep {
                    pending: string_from_chars(&chars),
                    status: None,
                    dispatch: true,
                    had_pending_number,
                };
            }
        },
        _ => {},
    }
    PendingNumberStep { pending: String::new(), status: None, dispatch: true, had_pending_number }
}

} // verus!
