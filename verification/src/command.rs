//! What a key press asks the application to do, given where it is.

use vstd::prelude::*;

use crate::keymap::{lookup, lookup_spec, Action, Direction, KeyCode, KeyModifiers};

verus! {

/// A request the application acts on.
#[derive(Debug, Clone, Copy, PartialEq, Eq, Structural)]
pub enum Command {
    TogglePanel,
    Move(isize),
    JumpPage(Direction),
    JumpTop,
    JumpBottom,
    JumpToCurrent,
    Activate,
    TogglePlayback,
    NextTrack,
    JumpToUpcoming,
    PreviousTrack,
    SeekBack,
    SeekForward,
    QueueNext,
    OpenSongModal,
    OpenMetadataEdit,
    OpenYoutube,
    OpenRemoveConfirm,
    BeginChangeDirectory,
    ToggleVisualSelect,
    StartSearch,
    CycleCategory(Direction),
    CycleSort(Direction),
    CyclePlaylistDisplayMode,
    Shuffle,
    Unshuffle,
    VolumeUp,
    VolumeDown,
    RequestQuit,
    ShowHelp,
    CancelQueueJump,
    ExitPlaylistView,
    ClearSearch,
}

/// Whether handling events changed what is on screen.
#[derive(Debug, Clone, Copy, PartialEq, Eq, Structural)]
pub enum EventsChanged {
    Changed,
    Unchanged,
}

/// Whether a key press was used.
#[derive(Debug, Clone, Copy, PartialEq, Eq, Structural)]
pub enum KeyEventHandled {
    Handled,
    Ignored,
}

/// What escape depends on: a number being typed, a visual selection, the
/// panel shown, an open playlist and the searches.
#[derive(Debug, Clone, Copy, PartialEq, Eq, Structural)]
pub struct EscContext {
    pub had_pending_number: bool,
    pub visual_active: bool,
    pub in_playlists_panel: bool,
    pub viewing_playlist: bool,
    pub playlist_search_active: bool,
    pub library_search_active: bool,
}

/// What escape asks for: cancel the number being typed, else end the
/// visual selection, else leave the open playlist (or clear its search),
/// else clear the search shown, else ask to quit.
pub open spec fn esc_command_spec(ctx: EscContext) -> Command {
    if ctx.had_pending_number {
        Command::CancelQueueJump
    } else if ctx.visual_active {
        Command::ToggleVisualSelect
    } else if ctx.in_playlists_panel && ctx.viewing_playlist {
        if !ctx.playlist_search_active {
            Command::ExitPlaylistView
        } else {
            Command::ClearSearch
        }
    } else if ctx.in_playlists_panel && ctx.playlist_search_active {
        Command::ClearSearch
    } else if !ctx.in_playlists_panel && ctx.library_search_active {
        Command::ClearSearch
    } else {
        Command::RequestQuit
    }
}

/// See [`esc_command_spec`].
pub fn esc_command(ctx: EscContext) -> (r: Option<Command>)
    ensures
        r == Some(esc_command_spec(ctx)),
{
    if ctx.had_pending_number {
        return Some(Command::CancelQueueJump);
    }
    if ctx.visual_active {
        return Some(Command::ToggleVisualSelect);
    }
    if ctx.in_playlists_panel && ctx.viewing_playlist {
        if !ctx.playlist_search_active {
            return Some(Command::ExitPlaylistView);
        }
        return Some(Command::ClearSearch);
    }
    if ctx.in_playlists_panel && ctx.playlist_search_active {
        return Some(Command::ClearSearch);
    }
    if !ctx.in_playlists_panel && ctx.library_search_active {
        return Some(Command::ClearSearch);
    }
    Some(Command::RequestQuit)
}

/// The command an action asks for; "next" jumps into the upcoming songs
/// instead when a number has been typed.
pub open spec fn action_command_spec(action: Action, pending_number_empty: bool) -> Command {
    match action {
        Action::TogglePanel => Command::TogglePanel,
        Action::MoveDown => Command::Move(1isize),
        Action::MoveUp => Command::Move(-1isize),
        Action::PageDown => Command::JumpPage(Direction::Forwards),
        Action::PageUp => Command::JumpPage(Direction::Backwards),
        Action::JumpTop => Command::JumpTop,
        Action::JumpBottom => Command::JumpBottom,
        Action::JumpToCurrent => Command::JumpToCurrent,
        Action::Activate => Command::Activate,
        Action::TogglePlayback => Command::TogglePlayback,
        Action::NextOrJump => if pending_number_empty {
            Command::NextTrack
        } else {
            Command::JumpToUpcoming
        },
        Action::PrevTrack => Command::PreviousTrack,
        Action::SeekBack => Command::SeekBack,
        Action::SeekForward => Command::SeekForward,
        Action::QueueNext => Command::QueueNext,
        Action::OpenSongModal => Command::OpenSongModal,
        Action::OpenMetadataEditModal => Command::OpenMetadataEdit,
        Action::OpenYoutubeModal => Command::OpenYoutube,
        Action::RemoveFromPlaylist => Command::OpenRemoveConfirm,
        Action::ChangeDirectory => Command::BeginChangeDirectory,
        Action::ToggleVisualSelect => Command::ToggleVisualSelect,
        Action::ToggleSearch => Command::StartSearch,
        Action::CycleCategory(d) => Command::CycleCategory(d),
        Action::CycleSort(d) => Command::CycleSort(d),
        Action::CyclePlaylistDisplayMode => Command::CyclePlaylistDisplayMode,
        Action::Shuffle => Command::Shuffle,
        Action::Unshuffle => Command::Unshuffle,
        Action::VolumeUp => Command::VolumeUp,
        Action::VolumeDown => Command::VolumeDown,
        Action::Quit => Command::RequestQuit,
        Action::ToggleHelp => Command::ShowHelp,
    }
}

/// Different actions never ask for the same command, whatever number has
/// been typed: in particular "previous" never skips forward, and "next"
/// (or the jump into the upcoming songs) is asked for by no other action.
pub proof fn lemma_actions_ask_for_distinct_commands(a: Action, b: Action, a_empty: bool, b_empty: bool)
    requires
        a != b,
    ensures
        action_command_spec(a, a_empty) != action_command_spec(b, b_empty),
{
}

/// Going back a track and going on to the next one (or into the upcoming
/// songs) are different commands, with or without a number typed.
pub proof fn lemma_previous_is_not_next(typed: bool, other: bool)
    ensures
        action_command_spec(Action::PrevTrack, typed) != action_command_spec(Action::NextOrJump, other),
        action_command_spec(Action::NextOrJump, true) != action_command_spec(Action::NextOrJump, false),
{
    lemma_actions_ask_for_distinct_commands(Action::PrevTrack, Action::NextOrJump, typed, other);
}

/// See [`action_command_spec`].
pub fn action_command(action: Action, pending_number_empty: bool) -> (r: Option<Command>)
    ensures
        r == Some(action_command_spec(action, pending_number_empty)),
{
    let command = match action {
        Action::TogglePanel => Command::TogglePanel,
        Action::MoveDown => Command::Move(1),
        Action::MoveUp => Command::Move(-1),
        Action::PageDown => Command::JumpPage(Direction::Forwards),
        Action::PageUp => Command::JumpPage(Direction::Backwards),
        Action::JumpTop => Command::JumpTop,
        Action::JumpBottom => Command::JumpBottom,
        Action::JumpToCurrent => Command::JumpToCurrent,
        Action::Activate => Command::Activate,
        Action::TogglePlayback => Command::TogglePlayback,
        Action::NextOrJump => {
            if pending_number_empty {
                Command::NextTrack
            } else {
                Command::JumpToUpcoming
            }
        },
        Action::PrevTrack => Command::PreviousTrack,
        Action::SeekBack => Command::SeekBack,
        Action::SeekForward => Command::SeekForward,
        Action::QueueNext => Command::QueueNext,
        Action::OpenSongModal => Command::OpenSongModal,
        Action::OpenMetadataEditModal => Command::OpenMetadataEdit,
        Action::OpenYoutubeModal => Command::OpenYoutube,
        Action::RemoveFromPlaylist => Command::OpenRemoveConfirm,
        Action::ChangeDirectory => Command::BeginChangeDirectory,
        Action::ToggleVisualSelect => Command::ToggleVisualSelect,
        Action::ToggleSearch => Command::StartSearch,
        Action::CycleCategory(d) => Command::CycleCategory(d),
        Action::CycleSort(d) => Command::CycleSort(d),
        Action::CyclePlaylistDisplayMode => Command::CyclePlaylistDisplayMode,
        Action::Shuffle => Command::Shuffle,
        Action::Unshuffle => Command::Unshuffle,
        Action::VolumeUp => Command::VolumeUp,
        Action::VolumeDown => Command::VolumeDown,
        Action::Quit => Command::RequestQuit,
        Action::ToggleHelp => Command::ShowHelp,
    };
    Some(command)
}

/// The command a key press asks for: escape by where the application is,
/// any other key through the binding table.
pub fn command_for_key(
    code: KeyCode,
    mods: KeyModifiers,
    ctx: EscContext,
    pending_number_empty: bool,
) -> (r: Option<Command>)
    ensures
        code == KeyCode::Esc ==> r == Some(esc_command_spec(ctx)),
        code != KeyCode::Esc ==> r == match lookup_spec(code, mods) {
            Some(action) => Some(action_command_spec(action, pending_number_empty)),
            None => None,
        },
{
    if code == KeyCode::Esc {
        return esc_command(ctx);
    }
    match lookup(code, mods) {
        Some(action) => action_command(action, pending_number_empty),
        None => None,
    }
}

} // verus!
