//! The key bindings: which key does what, how keys are drawn, and the
//! help and hint text derived from the table.

use vstd::prelude::*;

use crate::song::{decimal_digits, decimal_usize};
use crate::text::{chars_equal, chars_of, string_from_chars};

verus! {

/// What a key press asks for.
#[derive(Debug, Clone, Copy, PartialEq, Eq, Structural)]
pub enum Action {
    TogglePanel,
    MoveDown,
    MoveUp,
    PageDown,
    PageUp,
    JumpTop,
    JumpBottom,
    JumpToCurrent,
    Activate,
    TogglePlayback,
    NextOrJump,
    PrevTrack,
    SeekBack,
    SeekForward,
    QueueNext,
    OpenSongModal,
    OpenMetadataEditModal,
    OpenYoutubeModal,
    RemoveFromPlaylist,
    ChangeDirectory,
    ToggleSearch,
    ToggleVisualSelect,
    CycleCategory(Direction),
    CycleSort(Direction),
    CyclePlaylistDisplayMode,
    Shuffle,
    Unshuffle,
    VolumeUp,
    VolumeDown,
    Quit,
    ToggleHelp,
}

/// Where a binding is listed in the help.
#[derive(Clone, Copy, PartialEq, Eq, Structural)]
pub enum Section {
    Global,
    Library,
    Playlists,
}

/// Which way a cycle or a jump goes.
#[derive(Debug, Clone, Copy, PartialEq, Eq, Structural)]
pub enum Direction {
    Forwards,
    Backwards,
}

/// A key, as the bindings name it.
#[derive(Debug, Clone, Copy, PartialEq, Eq, Structural)]
pub enum KeyCode {
    Char(char),
    Up,
    Down,
    Left,
    Right,
    Enter,
    Esc,
    Tab,
    BackTab,
    Home,
    End,
    Backspace,
    PageUp,
    PageDown,
    Delete,
    Insert,
    F(u8),
    Null,
    CapsLock,
    ScrollLock,
    NumLock,
    PrintScreen,
    Pause,
    Menu,
    KeypadBegin,
    /// A media or modifier key, which no binding uses.
    Other,
}

/// The modifier keys held with a key.
#[derive(Debug, Clone, Copy, PartialEq, Eq, Structural)]
pub struct KeyModifiers {
    pub shift: bool,
    pub control: bool,
    pub alt: bool,
    pub super_key: bool,
    pub hyper: bool,
    pub meta: bool,
}

pub open spec fn no_mods_spec() -> KeyModifiers {
    KeyModifiers { shift: false, control: false, alt: false, super_key: false, hyper: false, meta: false }
}

pub open spec fn ctrl_mods_spec() -> KeyModifiers {
    KeyModifiers { control: true, ..no_mods_spec() }
}

pub open spec fn alt_mods_spec() -> KeyModifiers {
    KeyModifiers { alt: true, ..no_mods_spec() }
}

/// No modifier held.
#[verifier::when_used_as_spec(no_mods_spec)]
pub fn no_mods() -> (r: KeyModifiers)
    ensures
        r == no_mods_spec(),
{
    KeyModifiers { shift: false, control: false, alt: false, super_key: false, hyper: false, meta: false }
}

/// Control held.
#[verifier::when_used_as_spec(ctrl_mods_spec)]
pub fn ctrl_mods() -> (r: KeyModifiers)
    ensures
        r == ctrl_mods_spec(),
{
    KeyModifiers { shift: false, control: true, alt: false, super_key: false, hyper: false, meta: false }
}

/// Alt held.
#[verifier::when_used_as_spec(alt_mods_spec)]
pub fn alt_mods() -> (r: KeyModifiers)
    ensures
        r == alt_mods_spec(),
{
    KeyModifiers { shift: false, control: false, alt: true, super_key: false, hyper: false, meta: false }
}

/// Whether a press with `pressed` held matches a binding made with
/// `binding`: every modifier but shift must agree (shift is part of the
/// character typed).
pub open spec fn mods_match_spec(binding: KeyModifiers, pressed: KeyModifiers) -> bool {
    binding.control == pressed.control && binding.alt == pressed.alt && binding.super_key
        == pressed.super_key && binding.hyper == pressed.hyper && binding.meta == pressed.meta
}

/// See [`mods_match_spec`].
pub fn mods_match(binding: KeyModifiers, pressed: KeyModifiers) -> (r: bool)
    ensures
        r == mods_match_spec(binding, pressed),
{
    binding.control == pressed.control && binding.alt == pressed.alt && binding.super_key
        == pressed.super_key && binding.hyper == pressed.hyper && binding.meta == pressed.meta
}

/// Whether `c` is an ASCII capital letter.
pub open spec fn is_ascii_upper(c: char) -> bool {
    'A' <= c && c <= 'Z'
}

/// How a key is drawn.
pub open spec fn key_code_text(code: KeyCode) -> Seq<char> {
    match code {
        KeyCode::Char(c) => if c == ' ' {
            "Space"@
        } else if is_ascii_upper(c) {
            "Shift+"@ + seq![c]
        } else {
            seq![c]
        },
        KeyCode::Up => "\u{2191}"@,
        KeyCode::Down => "\u{2193}"@,
        KeyCode::Left => "\u{2190}"@,
        KeyCode::Right => "\u{2192}"@,
        KeyCode::Enter => "Enter"@,
        KeyCode::Esc => "Esc"@,
        KeyCode::Tab => "Tab"@,
        KeyCode::BackTab => "Shift+Tab"@,
        KeyCode::Home => "Home"@,
        KeyCode::End => "End"@,
        KeyCode::Backspace => "Backspace"@,
        KeyCode::PageUp => "PageUp"@,
        KeyCode::PageDown => "PageDown"@,
        KeyCode::Delete => "Delete"@,
        KeyCode::Insert => "Insert"@,
        KeyCode::F(n) => "F("@ + decimal_digits(n as nat) + ")"@,
        KeyCode::Null => "Null"@,
        KeyCode::CapsLock => "CapsLock"@,
        KeyCode::ScrollLock => "ScrollLock"@,
        KeyCode::NumLock => "NumLock"@,
        KeyCode::PrintScreen => "PrintScreen"@,
        KeyCode::Pause => "Pause"@,
        KeyCode::Menu => "Menu"@,
        KeyCode::KeypadBegin => "KeypadBegin"@,
        KeyCode::Other => "Other"@,
    }
}

/// How a key with modifiers is drawn: `<`, the control and alt prefixes,
/// the key, `>`.
pub open spec fn key_text(code: KeyCode, mods: KeyModifiers) -> Seq<char> {
    "<"@ + (if mods.control {
        "Ctrl+"@
    } else {
        Seq::empty()
    }) + (if mods.alt {
        "Alt+"@
    } else {
        Seq::empty()
    }) + key_code_text(code) + ">"@
}

/// How a list of keys is drawn: each key, joined by slashes.
pub open spec fn keys_text(keys: Seq<(KeyCode, KeyModifiers)>) -> Seq<char>
    decreases keys.len(),
{
    if keys.len() == 0 {
        Seq::empty()
    } else if keys.len() == 1 {
        key_text(keys[0].0, keys[0].1)
    } else {
        keys_text(keys.drop_last()) + "/"@ + key_text(keys.last().0, keys.last().1)
    }
}

/// Draws a key (see [`key_code_text`]).
pub fn render_key_code(code: KeyCode) -> (r: String)
    ensures
        r@ == key_code_text(code),
{
    match code {
        KeyCode::Char(c) => {
            if c == ' ' {
                "Space".to_string()
            } else if 'A' <= c && c <= 'Z' {
                let mut v: Vec<char> = Vec::new();
                v.push(c);
                let out = "Shift+".to_string();
                let letter = string_from_chars(&v);
                assert(v@ =~= seq![c]);
                out.concat(letter.as_str())
            } else {
                let mut v: Vec<char> = Vec::new();
                v.push(c);
                assert(v@ =~= seq![c]);
                string_from_chars(&v)
            }
        },
        KeyCode::Up => "\u{2191}".to_string(),
        KeyCode::Down => "\u{2193}".to_string(),
        KeyCode::Left => "\u{2190}".to_string(),
        KeyCode::Right => "\u{2192}".to_string(),
        KeyCode::Enter => "Enter".to_string(),
        KeyCode::Esc => "Esc".to_string(),
        KeyCode::Tab => "Tab".to_string(),
        KeyCode::BackTab => "Shift+Tab".to_string(),
        KeyCode::Home => "Home".to_string(),
        KeyCode::End => "End".to_string(),
        KeyCode::Backspace => "Backspace".to_string(),
        KeyCode::PageUp => "PageUp".to_string(),
        KeyCode::PageDown => "PageDown".to_string(),
        KeyCode::Delete => "Delete".to_string(),
        KeyCode::Insert => "Insert".to_string(),
        KeyCode::F(n) => {
            let out = "F(".to_string();
            let digits = decimal_usize(n as usize);
            let out = out.concat(digits.as_str());
            out.concat(")")
        },
        KeyCode::Null => "Null".to_string(),
        KeyCode::CapsLock => "CapsLock".to_string(),
        KeyCode::ScrollLock => "ScrollLock".to_string(),
        KeyCode::NumLock => "NumLock".to_string(),
        KeyCode::PrintScreen => "PrintScreen".to_string(),
        KeyCode::Pause => "Pause".to_string(),
        KeyCode::Menu => "Menu".to_string(),
        KeyCode::KeypadBegin => "KeypadBegin".to_string(),
        KeyCode::Other => "Other".to_string(),
    }
}

/// Draws a key with its modifiers (see [`key_text`]).
pub fn render_key(code: KeyCode, mods: KeyModifiers) -> (r: String)
    ensures
        r@ == key_text(code, mods),
{
    let out = "<".to_string();
    let out = if mods.control {
        out.concat("Ctrl+")
    } else {
        out
    };
    let out = if mods.alt {
        out.concat("Alt+")
    } else {
        out
    };
    let name = render_key_code(code);
    let out = out.concat(name.as_str());
    let r = out.concat(">");
    proof {
        let a = "<"@;
        let b = if mods.control { "Ctrl+"@ } else { Seq::<char>::empty() };
        let c = if mods.alt { "Alt+"@ } else { Seq::<char>::empty() };
        assert(r@ =~= a + b + c + key_code_text(code) + ">"@);
    }
    r
}

/// Draws a list of keys (see [`keys_text`]).
pub fn render_keys(keys: &[(KeyCode, KeyModifiers)]) -> (r: String)
    ensures
        r@ == keys_text(keys@),
{
    let mut out = String::new();
    let mut i: usize = 0;
    while i < keys.len()
        invariant
            i <= keys@.len(),
            out@ == keys_text(keys@.take(i as int)),
        decreases keys@.len() - i,
    {
        let (code, mods) = keys[i];
        let one = render_key(code, mods);
        let ghost before = out@;
        if i > 0 {
            let next = out.concat("/");
            out = next.concat(one.as_str());
        } else {
            out = one;
        }
        i = i + 1;
        proof {
            let t = keys@.take(i as int);
            assert(t.drop_last() =~= keys@.take(i - 1));
            assert(t.last() == keys@[i - 1]);
            if i == 1 {
                assert(t.len() == 1);
                assert(t[0] == keys@[0]);
            }
        }
    }
    assert(keys@.take(keys@.len() as int) =~= keys@);
    out
}

/// What a binding holds.
#[verifier::ext_equal]
pub struct BindingView {
    pub keys: Seq<(KeyCode, KeyModifiers)>,
    pub action: Option<Action>,
    pub display_override: Option<Seq<char>>,
    pub desc: Seq<char>,
    pub section: Section,
    pub dispatch: bool,
}

/// A row of the binding table: the keys, the action they trigger (if the
/// key press is dispatched through the table), the help text, and where
/// the help lists it.
pub struct Binding {
    pub keys: Vec<(KeyCode, KeyModifiers)>,
    pub action: Option<Action>,
    pub display_override: Option<&'static str>,
    pub desc: &'static str,
    pub section: Section,
    pub dispatch: bool,
}

impl View for Binding {
    type V = BindingView;

    open spec fn view(&self) -> BindingView {
        BindingView {
            keys: self.keys@,
            action: self.action,
            display_override: match self.display_override {
                Some(s) => Some(s@),
                None => None,
            },
            desc: self.desc@,
            section: self.section,
            dispatch: self.dispatch,
        }
    }
}

/// How many rows the binding table has.
pub const BINDING_COUNT: usize = 42;

/// The binding table, entry `i`.
pub open spec fn binding_spec(i: int) -> BindingView {
    if i == 0 {
        BindingView {
            keys: seq![(KeyCode::Tab, no_mods())],
            action: Some(Action::TogglePanel),
            display_override: None,
            desc: "Switch between Library / Playlists"@,
            section: Section::Global,
            dispatch: true,
        }
    } else if i == 1 {
        BindingView {
            keys: seq![(KeyCode::Char('j'), no_mods()), (KeyCode::Down, no_mods())],
            action: Some(Action::MoveDown),
            display_override: None,
            desc: "Move selection"@,
            section: Section::Global,
            dispatch: true,
        }
    } else if i == 2 {
        BindingView {
            keys: seq![(KeyCode::Char('k'), no_mods()), (KeyCode::Up, no_mods())],
            action: Some(Action::MoveUp),
            display_override: None,
            desc: "Move selection"@,
            section: Section::Global,
            dispatch: true,
        }
    } else if i == 3 {
        BindingView {
            keys: seq![(KeyCode::Char('d'), ctrl_mods())],
            action: Some(Action::PageDown),
            display_override: None,
            desc: "Jump a page down / up"@,
            section: Section::Global,
            dispatch: true,
        }
    } else if i == 4 {
        BindingView {
            keys: seq![(KeyCode::Char('u'), ctrl_mods())],
            action: Some(Action::PageUp),
            display_override: None,
            desc: "Jump a page down / up"@,
            section: Section::Global,
            dispatch: true,
        }
    } else if i == 5 {
        BindingView {
            keys: seq![(KeyCode::Char('g'), no_mods()), (KeyCode::Home, no_mods())],
            action: Some(Action::JumpTop),
            display_override: None,
            desc: "Jump to top / bottom"@,
            section: Section::Global,
            dispatch: true,
        }
    } else if i == 6 {
        BindingView {
            keys: seq![(KeyCode::Char('G'), no_mods()), (KeyCode::End, no_mods())],
            action: Some(Action::JumpBottom),
            display_override: None,
            desc: "Jump to top / bottom"@,
            section: Section::Global,
            dispatch: true,
        }
    } else if i == 7 {
        BindingView {
            keys: seq![(KeyCode::Char('c'), no_mods())],
            action: Some(Action::JumpToCurrent),
            display_override: None,
            desc: "Jump to now playing"@,
            section: Section::Global,
            dispatch: true,
        }
    } else if i == 8 {
        BindingView {
            keys: seq![(KeyCode::Enter, no_mods())],
            action: Some(Action::Activate),
            display_override: None,
            desc: "Play selected song / open selected playlist"@,
            section: Section::Global,
            dispatch: true,
        }
    } else if i == 9 {
        BindingView {
            keys: seq![(KeyCode::Char(' '), no_mods())],
            action: Some(Action::TogglePlayback),
            display_override: None,
            desc: "Pause / resume"@,
            section: Section::Global,
            dispatch: true,
        }
    } else if i == 10 {
        BindingView {
            keys: seq![(KeyCode::Char('n'), no_mods())],
            action: Some(Action::NextOrJump),
            display_override: None,
            desc: "Next track"@,
            section: Section::Global,
            dispatch: true,
        }
    } else if i == 11 {
        BindingView {
            keys: Seq::empty(),
            action: None,
            display_override: Some("<1-9> then <n>"@),
            desc: "Jump to Nth song in Up Next (<Esc> cancels)"@,
            section: Section::Global,
            dispatch: false,
        }
    } else if i == 12 {
        BindingView {
            keys: seq![(KeyCode::Char('b'), no_mods())],
            action: Some(Action::PrevTrack),
            display_override: None,
            desc: "Previous track"@,
            section: Section::Global,
            dispatch: true,
        }
    } else if i == 13 {
        BindingView {
            keys: seq![(KeyCode::Left, no_mods())],
            action: Some(Action::SeekBack),
            display_override: None,
            desc: "Seek back 5 seconds"@,
            section: Section::Global,
            dispatch: true,
        }
    } else if i == 14 {
        BindingView {
            keys: seq![(KeyCode::Right, no_mods())],
            action: Some(Action::SeekForward),
            display_override: None,
            desc: "Seek forward 5 seconds (past the end skips to the next track)"@,
            section: Section::Global,
            dispatch: true,
        }
    } else if i == 15 {
        BindingView {
            keys: seq![(KeyCode::Char('a'), no_mods())],
            action: Some(Action::QueueNext),
            display_override: None,
            desc: "Queue selected song next"@,
            section: Section::Global,
            dispatch: true,
        }
    } else if i == 16 {
        BindingView {
            keys: seq![(KeyCode::Char('v'), ctrl_mods())],
            action: Some(Action::ToggleVisualSelect),
            display_override: None,
            desc: "Start/cancel visual selection (select a range with j/k etc, then <w>)"@,
            section: Section::Global,
            dispatch: true,
        }
    } else if i == 17 {
        BindingView {
            keys: seq![(KeyCode::Char('s'), no_mods())],
            action: Some(Action::Shuffle),
            display_override: None,
            desc: "Shuffle"@,
            section: Section::Global,
            dispatch: true,
        }
    } else if i == 18 {
        BindingView {
            keys: seq![(KeyCode::Char('u'), no_mods())],
            action: Some(Action::Unshuffle),
            display_override: None,
            desc: "Un-shuffle"@,
            section: Section::Global,
            dispatch: true,
        }
    } else if i == 19 {
        BindingView {
            keys: seq![(KeyCode::Char('['), no_mods()), (KeyCode::Char('-'), no_mods())],
            action: Some(Action::VolumeDown),
            display_override: None,
            desc: "Volume down / up"@,
            section: Section::Global,
            dispatch: true,
        }
    } else if i == 20 {
        BindingView {
            keys: seq![(KeyCode::Char(']'), no_mods()), (KeyCode::Char('='), no_mods())],
            action: Some(Action::VolumeUp),
            display_override: None,
            desc: "Volume down / up"@,
            section: Section::Global,
            dispatch: true,
        }
    } else if i == 21 {
        BindingView {
            keys: seq![(KeyCode::Char('w'), no_mods())],
            action: Some(Action::OpenSongModal),
            display_override: None,
            desc: "Song actions: add to / remove from / create playlist"@,
            section: Section::Global,
            dispatch: true,
        }
    } else if i == 22 {
        BindingView {
            keys: seq![(KeyCode::Char('E'), no_mods())],
            action: Some(Action::OpenMetadataEditModal),
            display_override: None,
            desc: "Edit song metadata (title/artist/album/genre/track/date)"@,
            section: Section::Global,
            dispatch: true,
        }
    } else if i == 23 {
        BindingView {
            keys: seq![(KeyCode::Char('y'), no_mods())],
            action: Some(Action::OpenYoutubeModal),
            display_override: None,
            desc: "Download audio from a YouTube URL"@,
            section: Section::Global,
            dispatch: true,
        }
    } else if i == 24 {
        BindingView {
            keys: seq![(KeyCode::Char('d'), alt_mods())],
            action: Some(Action::ChangeDirectory),
            display_override: None,
            desc: "Change directory (used by both Library and Playlists)"@,
            section: Section::Global,
            dispatch: true,
        }
    } else if i == 25 {
        BindingView {
            keys: seq![(KeyCode::Char('q'), no_mods())],
            action: Some(Action::Quit),
            display_override: None,
            desc: "Quit (with confirmation)"@,
            section: Section::Global,
            dispatch: true,
        }
    } else if i == 26 {
        BindingView {
            keys: seq![(KeyCode::Esc, no_mods())],
            action: None,
            display_override: None,
            desc: "Quit (with confirmation)"@,
            section: Section::Global,
            dispatch: false,
        }
    } else if i == 27 {
        BindingView {
            keys: seq![(KeyCode::Char('?'), no_mods())],
            action: Some(Action::ToggleHelp),
            display_override: None,
            desc: "Toggle this help"@,
            section: Section::Global,
            dispatch: true,
        }
    } else if i == 28 {
        BindingView {
            keys: seq![(KeyCode::Char('/'), no_mods())],
            action: Some(Action::ToggleSearch),
            display_override: None,
            desc: "Search the library (live filter)"@,
            section: Section::Library,
            dispatch: true,
        }
    } else if i == 29 {
        BindingView {
            keys: seq![(KeyCode::Char('o'), no_mods())],
            action: Some(Action::CycleCategory(Direction::Forwards)),
            display_override: None,
            desc: "Cycle library category (grouping)"@,
            section: Section::Library,
            dispatch: true,
        }
    } else if i == 30 {
        BindingView {
            keys: seq![(KeyCode::Char('O'), no_mods())],
            action: Some(Action::CycleCategory(Direction::Backwards)),
            display_override: None,
            desc: "Cycle library category (grouping)"@,
            section: Section::Library,
            dispatch: true,
        }
    } else if i == 31 {
        BindingView {
            keys: seq![(KeyCode::Char('p'), no_mods())],
            action: Some(Action::CycleSort(Direction::Forwards)),
            display_override: None,
            desc: "Cycle library sort (order within group)"@,
            section: Section::Library,
            dispatch: true,
        }
    } else if i == 32 {
        BindingView {
            keys: seq![(KeyCode::Char('P'), no_mods())],
            action: Some(Action::CycleSort(Direction::Backwards)),
            display_override: None,
            desc: "Cycle library sort (order within group)"@,
            section: Section::Library,
            dispatch: true,
        }
    } else if i == 33 {
        BindingView {
            keys: seq![(KeyCode::Char('m'), no_mods())],
            action: Some(Action::CyclePlaylistDisplayMode),
            display_override: None,
            desc: "Cycle playlist display: hidden / count / names"@,
            section: Section::Library,
            dispatch: true,
        }
    } else if i == 34 {
        BindingView {
            keys: Seq::empty(),
            action: Some(Action::ToggleSearch),
            display_override: None,
            desc: "Search by name / within the open playlist (live filter)"@,
            section: Section::Playlists,
            dispatch: false,
        }
    } else if i == 35 {
        BindingView {
            keys: Seq::empty(),
            action: Some(Action::Activate),
            display_override: None,
            desc: "Open playlist / play selected song within it"@,
            section: Section::Playlists,
            dispatch: false,
        }
    } else if i == 36 {
        BindingView {
            keys: seq![(KeyCode::Esc, no_mods())],
            action: None,
            display_override: None,
            desc: "Back to playlist browser"@,
            section: Section::Playlists,
            dispatch: false,
        }
    } else if i == 37 {
        BindingView {
            keys: Seq::empty(),
            action: Some(Action::CycleCategory(Direction::Forwards)),
            display_override: None,
            desc: "Cycle category within the open playlist"@,
            section: Section::Playlists,
            dispatch: false,
        }
    } else if i == 38 {
        BindingView {
            keys: Seq::empty(),
            action: Some(Action::CycleCategory(Direction::Backwards)),
            display_override: None,
            desc: "Cycle category within the open playlist"@,
            section: Section::Playlists,
            dispatch: false,
        }
    } else if i == 39 {
        BindingView {
            keys: Seq::empty(),
            action: Some(Action::CycleSort(Direction::Forwards)),
            display_override: None,
            desc: "Cycle sort within the open playlist"@,
            section: Section::Playlists,
            dispatch: false,
        }
    } else if i == 40 {
        BindingView {
            keys: Seq::empty(),
            action: Some(Action::CycleSort(Direction::Backwards)),
            display_override: None,
            desc: "Cycle sort within the open playlist"@,
            section: Section::Playlists,
            dispatch: false,
        }
    } else if i == 41 {
        BindingView {
            keys: seq![(KeyCode::Char('r'), no_mods())],
            action: Some(Action::RemoveFromPlaylist),
            display_override: None,
            desc: "Remove selected song from playlist (confirm)"@,
            section: Section::Playlists,
            dispatch: true,
        }
    } else {
        BindingView { keys: Seq::empty(), action: None, display_override: None, desc: Seq::empty(), section: Section::Global, dispatch: false }
    }
}

/// Entry `i` of the binding table.
fn binding_at(i: usize) -> (r: Binding)
    requires
        i < BINDING_COUNT,
    ensures
        r@ == binding_spec(i as int),
{
    match i {
        0 => {
            let mut keys: Vec<(KeyCode, KeyModifiers)> = Vec::new();
            keys.push((KeyCode::Tab, no_mods()));
            Binding {
                keys,
                action: Some(Action::TogglePanel),
                display_override: None,
                desc: "Switch between Library / Playlists",
                section: Section::Global,
                dispatch: true,
            }
        },
        1 => {
            let mut keys: Vec<(KeyCode, KeyModifiers)> = Vec::new();
            keys.push((KeyCode::Char('j'), no_mods()));
            keys.push((KeyCode::Down, no_mods()));
            Binding {
                keys,
                action: Some(Action::MoveDown),
                display_override: None,
                desc: "Move selection",
                section: Section::Global,
                dispatch: true,
            }
        },
        2 => {
            let mut keys: Vec<(KeyCode, KeyModifiers)> = Vec::new();
            keys.push((KeyCode::Char('k'), no_mods()));
            keys.push((KeyCode::Up, no_mods()));
            Binding {
                keys,
                action: Some(Action::MoveUp),
                display_override: None,
                desc: "Move selection",
                section: Section::Global,
                dispatch: true,
            }
        },
        3 => {
            let mut keys: Vec<(KeyCode, KeyModifiers)> = Vec::new();
            keys.push((KeyCode::Char('d'), ctrl_mods()));
            Binding {
                keys,
                action: Some(Action::PageDown),
                display_override: None,
                desc: "Jump a page down / up",
                section: Section::Global,
                dispatch: true,
            }
        },
        4 => {
            let mut keys: Vec<(KeyCode, KeyModifiers)> = Vec::new();
            keys.push((KeyCode::Char('u'), ctrl_mods()));
            Binding {
                keys,
                action: Some(Action::PageUp),
                display_override: None,
                desc: "Jump a page down / up",
                section: Section::Global,
                dispatch: true,
            }
        },
        5 => {
            let mut keys: Vec<(KeyCode, KeyModifiers)> = Vec::new();
            keys.push((KeyCode::Char('g'), no_mods()));
            keys.push((KeyCode::Home, no_mods()));
            Binding {
                keys,
                action: Some(Action::JumpTop),
                display_override: None,
                desc: "Jump to top / bottom",
                section: Section::Global,
                dispatch: true,
            }
        },
        6 => {
            let mut keys: Vec<(KeyCode, KeyModifiers)> = Vec::new();
            keys.push((KeyCode::Char('G'), no_mods()));
            keys.push((KeyCode::End, no_mods()));
            Binding {
                keys,
                action: Some(Action::JumpBottom),
                display_override: None,
                desc: "Jump to top / bottom",
                section: Section::Global,
                dispatch: true,
            }
        },
        7 => {
            let mut keys: Vec<(KeyCode, KeyModifiers)> = Vec::new();
            keys.push((KeyCode::Char('c'), no_mods()));
            Binding {
                keys,
                action: Some(Action::JumpToCurrent),
                display_override: None,
                desc: "Jump to now playing",
                section: Section::Global,
                dispatch: true,
            }
        },
        8 => {
            let mut keys: Vec<(KeyCode, KeyModifiers)> = Vec::new();
            keys.push((KeyCode::Enter, no_mods()));
            Binding {
                keys,
                action: Some(Action::Activate),
                display_override: None,
                desc: "Play selected song / open selected playlist",
                section: Section::Global,
                dispatch: true,
            }
        },
        9 => {
            let mut keys: Vec<(KeyCode, KeyModifiers)> = Vec::new();
            keys.push((KeyCode::Char(' '), no_mods()));
            Binding {
                keys,
                action: Some(Action::TogglePlayback),
                display_override: None,
                desc: "Pause / resume",
                section: Section::Global,
                dispatch: true,
            }
        },
        10 => {
            let mut keys: Vec<(KeyCode, KeyModifiers)> = Vec::new();
            keys.push((KeyCode::Char('n'), no_mods()));
            Binding {
                keys,
                action: Some(Action::NextOrJump),
                display_override: None,
                desc: "Next track",
                section: Section::Global,
                dispatch: true,
            }
        },
        11 => {
            let mut keys: Vec<(KeyCode, KeyModifiers)> = Vec::new();
            Binding {
                keys,
                action: None,
                display_override: Some("<1-9> then <n>"),
                desc: "Jump to Nth song in Up Next (<Esc> cancels)",
                section: Section::Global,
                dispatch: false,
            }
        },
        12 => {
            let mut keys: Vec<(KeyCode, KeyModifiers)> = Vec::new();
            keys.push((KeyCode::Char('b'), no_mods()));
            Binding {
                keys,
                action: Some(Action::PrevTrack),
                display_override: None,
                desc: "Previous track",
                section: Section::Global,
                dispatch: true,
            }
        },
        13 => {
            let mut keys: Vec<(KeyCode, KeyModifiers)> = Vec::new();
            keys.push((KeyCode::Left, no_mods()));
            Binding {
                keys,
                action: Some(Action::SeekBack),
                display_override: None,
                desc: "Seek back 5 seconds",
                section: Section::Global,
                dispatch: true,
            }
        },
        14 => {
            let mut keys: Vec<(KeyCode, KeyModifiers)> = Vec::new();
            keys.push((KeyCode::Right, no_mods()));
            Binding {
                keys,
                action: Some(Action::SeekForward),
                display_override: None,
                desc: "Seek forward 5 seconds (past the end skips to the next track)",
                section: Section::Global,
                dispatch: true,
            }
        },
        15 => {
            let mut keys: Vec<(KeyCode, KeyModifiers)> = Vec::new();
            keys.push((KeyCode::Char('a'), no_mods()));
            Binding {
                keys,
                action: Some(Action::QueueNext),
                display_override: None,
                desc: "Queue selected song next",
                section: Section::Global,
                dispatch: true,
            }
        },
        16 => {
            let mut keys: Vec<(KeyCode, KeyModifiers)> = Vec::new();
            keys.push((KeyCode::Char('v'), ctrl_mods()));
            Binding {
                keys,
                action: Some(Action::ToggleVisualSelect),
                display_override: None,
                desc: "Start/cancel visual selection (select a range with j/k etc, then <w>)",
                section: Section::Global,
                dispatch: true,
            }
        },
        17 => {
            let mut keys: Vec<(KeyCode, KeyModifiers)> = Vec::new();
            keys.push((KeyCode::Char('s'), no_mods()));
            Binding {
                keys,
                action: Some(Action::Shuffle),
                display_override: None,
                desc: "Shuffle",
                section: Section::Global,
                dispatch: true,
            }
        },
        18 => {
            let mut keys: Vec<(KeyCode, KeyModifiers)> = Vec::new();
            keys.push((KeyCode::Char('u'), no_mods()));
            Binding {
                keys,
                action: Some(Action::Unshuffle),
                display_override: None,
                desc: "Un-shuffle",
                section: Section::Global,
                dispatch: true,
            }
        },
        19 => {
            let mut keys: Vec<(KeyCode, KeyModifiers)> = Vec::new();
            keys.push((KeyCode::Char('['), no_mods()));
            keys.push((KeyCode::Char('-'), no_mods()));
            Binding {
                keys,
                action: Some(Action::VolumeDown),
                display_override: None,
                desc: "Volume down / up",
                section: Section::Global,
                dispatch: true,
            }
        },
        20 => {
            let mut keys: Vec<(KeyCode, KeyModifiers)> = Vec::new();
            keys.push((KeyCode::Char(']'), no_mods()));
            keys.push((KeyCode::Char('='), no_mods()));
            Binding {
                keys,
                action: Some(Action::VolumeUp),
                display_override: None,
                desc: "Volume down / up",
                section: Section::Global,
                dispatch: true,
            }
        },
        21 => {
            let mut keys: Vec<(KeyCode, KeyModifiers)> = Vec::new();
            keys.push((KeyCode::Char('w'), no_mods()));
            Binding {
                keys,
                action: Some(Action::OpenSongModal),
                display_override: None,
                desc: "Song actions: add to / remove from / create playlist",
                section: Section::Global,
                dispatch: true,
            }
        },
        22 => {
            let mut keys: Vec<(KeyCode, KeyModifiers)> = Vec::new();
            keys.push((KeyCode::Char('E'), no_mods()));
            Binding {
                keys,
                action: Some(Action::OpenMetadataEditModal),
                display_override: None,
                desc: "Edit song metadata (title/artist/album/genre/track/date)",
                section: Section::Global,
                dispatch: true,
            }
        },
        23 => {
            let mut keys: Vec<(KeyCode, KeyModifiers)> = Vec::new();
            keys.push((KeyCode::Char('y'), no_mods()));
            Binding {
                keys,
                action: Some(Action::OpenYoutubeModal),
                display_override: None,
                desc: "Download audio from a YouTube URL",
                section: Section::Global,
                dispatch: true,
            }
        },
        24 => {
            let mut keys: Vec<(KeyCode, KeyModifiers)> = Vec::new();
            keys.push((KeyCode::Char('d'), alt_mods()));
            Binding {
                keys,
                action: Some(Action::ChangeDirectory),
                display_override: None,
                desc: "Change directory (used by both Library and Playlists)",
                section: Section::Global,
                dispatch: true,
            }
        },
        25 => {
            let mut keys: Vec<(KeyCode, KeyModifiers)> = Vec::new();
            keys.push((KeyCode::Char('q'), no_mods()));
            Binding {
                keys,
                action: Some(Action::Quit),
                display_override: None,
                desc: "Quit (with confirmation)",
                section: Section::Global,
                dispatch: true,
            }
        },
        26 => {
            let mut keys: Vec<(KeyCode, KeyModifiers)> = Vec::new();
            keys.push((KeyCode::Esc, no_mods()));
            Binding {
                keys,
                action: None,
                display_override: None,
                desc: "Quit (with confirmation)",
                section: Section::Global,
                dispatch: false,
            }
        },
        27 => {
            let mut keys: Vec<(KeyCode, KeyModifiers)> = Vec::new();
            keys.push((KeyCode::Char('?'), no_mods()));
            Binding {
                keys,
                action: Some(Action::ToggleHelp),
                display_override: None,
                desc: "Toggle this help",
                section: Section::Global,
                dispatch: true,
            }
        },
        28 => {
            let mut keys: Vec<(KeyCode, KeyModifiers)> = Vec::new();
            keys.push((KeyCode::Char('/'), no_mods()));
            Binding {
                keys,
                action: Some(Action::ToggleSearch),
                display_override: None,
                desc: "Search the library (live filter)",
                section: Section::Library,
                dispatch: true,
            }
        },
        29 => {
            let mut keys: Vec<(KeyCode, KeyModifiers)> = Vec::new();
            keys.push((KeyCode::Char('o'), no_mods()));
            Binding {
                keys,
                action: Some(Action::CycleCategory(Direction::Forwards)),
                display_override: None,
                desc: "Cycle library category (grouping)",
                section: Section::Library,
                dispatch: true,
            }
        },
        30 => {
            let mut keys: Vec<(KeyCode, KeyModifiers)> = Vec::new();
            keys.push((KeyCode::Char('O'), no_mods()));
            Binding {
                keys,
                action: Some(Action::CycleCategory(Direction::Backwards)),
                display_override: None,
                desc: "Cycle library category (grouping)",
                section: Section::Library,
                dispatch: true,
            }
        },
        31 => {
            let mut keys: Vec<(KeyCode, KeyModifiers)> = Vec::new();
            keys.push((KeyCode::Char('p'), no_mods()));
            Binding {
                keys,
                action: Some(Action::CycleSort(Direction::Forwards)),
                display_override: None,
                desc: "Cycle library sort (order within group)",
                section: Section::Library,
                dispatch: true,
            }
        },
        32 => {
            let mut keys: Vec<(KeyCode, KeyModifiers)> = Vec::new();
            keys.push((KeyCode::Char('P'), no_mods()));
            Binding {
                keys,
                action: Some(Action::CycleSort(Direction::Backwards)),
                display_override: None,
                desc: "Cycle library sort (order within group)",
                section: Section::Library,
                dispatch: true,
            }
        },
        33 => {
            let mut keys: Vec<(KeyCode, KeyModifiers)> = Vec::new();
            keys.push((KeyCode::Char('m'), no_mods()));
            Binding {
                keys,
                action: Some(Action::CyclePlaylistDisplayMode),
                display_override: None,
                desc: "Cycle playlist display: hidden / count / names",
                section: Section::Library,
                dispatch: true,
            }
        },
        34 => {
            let mut keys: Vec<(KeyCode, KeyModifiers)> = Vec::new();
            Binding {
                keys,
                action: Some(Action::ToggleSearch),
                display_override: None,
                desc: "Search by name / within the open playlist (live filter)",
                section: Section::Playlists,
                dispatch: false,
            }
        },
        35 => {
            let mut keys: Vec<(KeyCode, KeyModifiers)> = Vec::new();
            Binding {
                keys,
                action: Some(Action::Activate),
                display_override: None,
                desc: "Open playlist / play selected song within it",
                section: Section::Playlists,
                dispatch: false,
            }
        },
        36 => {
            let mut keys: Vec<(KeyCode, KeyModifiers)> = Vec::new();
            keys.push((KeyCode::Esc, no_mods()));
            Binding {
                keys,
                action: None,
                display_override: None,
                desc: "Back to playlist browser",
                section: Section::Playlists,
                dispatch: false,
            }
        },
        37 => {
            let mut keys: Vec<(KeyCode, KeyModifiers)> = Vec::new();
            Binding {
                keys,
                action: Some(Action::CycleCategory(Direction::Forwards)),
                display_override: None,
                desc: "Cycle category within the open playlist",
                section: Section::Playlists,
                dispatch: false,
            }
        },
        38 => {
            let mut keys: Vec<(KeyCode, KeyModifiers)> = Vec::new();
            Binding {
                keys,
                action: Some(Action::CycleCategory(Direction::Backwards)),
                display_override: None,
                desc: "Cycle category within the open playlist",
                section: Section::Playlists,
                dispatch: false,
            }
        },
        39 => {
            let mut keys: Vec<(KeyCode, KeyModifiers)> = Vec::new();
            Binding {
                keys,
                action: Some(Action::CycleSort(Direction::Forwards)),
                display_override: None,
                desc: "Cycle sort within the open playlist",
                section: Section::Playlists,
                dispatch: false,
            }
        },
        40 => {
            let mut keys: Vec<(KeyCode, KeyModifiers)> = Vec::new();
            Binding {
                keys,
                action: Some(Action::CycleSort(Direction::Backwards)),
                display_override: None,
                desc: "Cycle sort within the open playlist",
                section: Section::Playlists,
                dispatch: false,
            }
        },
        _ => {
            let mut keys: Vec<(KeyCode, KeyModifiers)> = Vec::new();
            keys.push((KeyCode::Char('r'), no_mods()));
            Binding {
                keys,
                action: Some(Action::RemoveFromPlaylist),
                display_override: None,
                desc: "Remove selected song from playlist (confirm)",
                section: Section::Playlists,
                dispatch: true,
            }
        },
    }
}

/// The binding table.
pub open spec fn binding_table() -> Seq<BindingView> {
    Seq::new(BINDING_COUNT as nat, |i: int| binding_spec(i))
}

/// The binding table.
pub fn bindings() -> (r: Vec<Binding>)
    ensures
        r@.len() == BINDING_COUNT,
        forall|i: int| 0 <= i < BINDING_COUNT ==> (#[trigger] r@[i])@ == binding_table()[i],
{
    let mut out: Vec<Binding> = Vec::new();
    let mut i: usize = 0;
    while i < BINDING_COUNT
        invariant
            i <= BINDING_COUNT,
            out@.len() == i,
            forall|k: int| 0 <= k < i ==> (#[trigger] out@[k])@ == binding_table()[k],
        decreases BINDING_COUNT - i,
    {
        out.push(binding_at(i));
        i = i + 1;
    }
    out
}

/// The first row, from `from` on, whose action is `action` and that has
/// keys of its own.
pub open spec fn find_keys_for(table: Seq<BindingView>, action: Action, from: int) -> Option<int>
    decreases table.len() - from,
{
    if from < 0 || from >= table.len() {
        None
    } else if table[from].action == Some(action) && table[from].keys.len() > 0 {
        Some(from)
    } else {
        find_keys_for(table, action, from + 1)
    }
}

/// How the keys for `action` are drawn: those of the first row that has
/// the action and keys of its own, or nothing.
pub open spec fn display_for_spec(action: Action) -> Seq<char> {
    match find_keys_for(binding_table(), action, 0) {
        Some(i) => keys_text(binding_table()[i].keys),
        None => Seq::empty(),
    }
}

/// Draws the keys for `action` (see [`display_for_spec`]).
pub fn display_for(action: Action) -> (r: String)
    ensures
        r@ == display_for_spec(action),
{
    let table = bindings();
    let mut i: usize = 0;
    while i < table.len()
        invariant
            i <= table@.len(),
            table@.len() == BINDING_COUNT,
            forall|k: int| 0 <= k < BINDING_COUNT ==> (#[trigger] table@[k])@ == binding_table()[k],
            find_keys_for(binding_table(), action, 0) == find_keys_for(binding_table(), action, i as int),
        decreases table@.len() - i,
    {
        let b = &table[i];
        assert(b@ == binding_table()[i as int]);
        if b.action == Some(action) && b.keys.len() > 0 {
            return render_keys(b.keys.as_slice());
        }
        i = i + 1;
    }
    String::new()
}

/// How a row is drawn in the help: its own text when it has one, else its
/// keys, else the keys of its action.
pub open spec fn binding_display_spec(b: BindingView) -> Seq<char> {
    match b.display_override {
        Some(text) => text,
        None => if b.keys.len() > 0 {
            keys_text(b.keys)
        } else {
            match b.action {
                Some(a) => display_for_spec(a),
                None => Seq::empty(),
            }
        },
    }
}

impl Binding {
    /// How the row is drawn in the help (see [`binding_display_spec`]).
    pub fn display(&self) -> (r: String)
        ensures
            r@ == binding_display_spec(self@),
    {
        if let Some(text) = self.display_override {
            return text.to_string();
        }
        if self.keys.len() > 0 {
            return render_keys(self.keys.as_slice());
        }
        match self.action {
            Some(action) => display_for(action),
            None => String::new(),
        }
    }
}

/// Whether `pressed` with `mods` is one of `keys`.
pub open spec fn keys_accept(keys: Seq<(KeyCode, KeyModifiers)>, pressed: KeyCode, mods: KeyModifiers) -> bool {
    exists|k: int| 0 <= k < keys.len() && keys[k].0 == pressed && mods_match_spec(keys[k].1, mods)
}

/// Whether `pressed` with `mods` is one of `keys`.
fn accepts(keys: &[(KeyCode, KeyModifiers)], pressed: KeyCode, mods: KeyModifiers) -> (r: bool)
    ensures
        r == keys_accept(keys@, pressed, mods),
{
    let mut i: usize = 0;
    while i < keys.len()
        invariant
            i <= keys@.len(),
            forall|k: int| 0 <= k < i ==> !(keys@[k].0 == pressed && mods_match_spec(keys@[k].1, mods)),
        decreases keys@.len() - i,
    {
        let (code, bound) = keys[i];
        if code == pressed && mods_match(bound, mods) {
            return true;
        }
        i = i + 1;
    }
    false
}

/// The first dispatched row, from `from` on, whose keys accept the press.
pub open spec fn find_dispatch(table: Seq<BindingView>, pressed: KeyCode, mods: KeyModifiers, from: int) -> Option<int>
    decreases table.len() - from,
{
    if from < 0 || from >= table.len() {
        None
    } else if table[from].dispatch && keys_accept(table[from].keys, pressed, mods) {
        Some(from)
    } else {
        find_dispatch(table, pressed, mods, from + 1)
    }
}

/// The action a key press triggers: that of the first dispatched row that
/// accepts it.
pub open spec fn lookup_spec(pressed: KeyCode, mods: KeyModifiers) -> Option<Action> {
    match find_dispatch(binding_table(), pressed, mods, 0) {
        Some(i) => binding_table()[i].action,
        None => None,
    }
}

/// The action a key press triggers (see [`lookup_spec`]).
pub fn lookup(pressed: KeyCode, mods: KeyModifiers) -> (r: Option<Action>)
    ensures
        r == lookup_spec(pressed, mods),
{
    let table = bindings();
    let mut i: usize = 0;
    while i < table.len()
        invariant
            i <= table@.len(),
            table@.len() == BINDING_COUNT,
            forall|k: int| 0 <= k < BINDING_COUNT ==> (#[trigger] table@[k])@ == binding_table()[k],
            find_dispatch(binding_table(), pressed, mods, 0) == find_dispatch(binding_table(), pressed, mods, i as int),
        decreases table@.len() - i,
    {
        let b = &table[i];
        assert(b@ == binding_table()[i as int]);
        if b.dispatch && accepts(b.keys.as_slice(), pressed, mods) {
            return b.action;
        }
        i = i + 1;
    }
    None
}

/// The help rows of the first `n` table rows that belong to `section`:
/// each row's keys and text, a row with the same text as the one before
/// it joining that one's keys with " / ".
pub open spec fn help_rows_upto(section: Section, n: int) -> Seq<(Seq<char>, Seq<char>)>
    decreases n,
{
    if n <= 0 {
        Seq::empty()
    } else {
        let rows = help_rows_upto(section, n - 1);
        let b = binding_table()[n - 1];
        if b.section != section {
            rows
        } else if rows.len() > 0 && rows.last().1 == b.desc {
            rows.update(rows.len() - 1, (rows.last().0 + " / "@ + binding_display_spec(b), rows.last().1))
        } else {
            rows.push((binding_display_spec(b), b.desc))
        }
    }
}

/// The help rows of `section` (see [`help_rows_upto`]).
pub fn help_rows(section: Section) -> (r: Vec<(String, &'static str)>)
    ensures
        r@.len() == help_rows_upto(section, BINDING_COUNT as int).len(),
        forall|k: int|
            0 <= k < r@.len() ==> (#[trigger] r@[k]).0@ == help_rows_upto(section, BINDING_COUNT as int)[k].0
                && r@[k].1@ == help_rows_upto(section, BINDING_COUNT as int)[k].1,
{
    let table = bindings();
    let mut rows: Vec<(String, &'static str)> = Vec::new();
    let mut i: usize = 0;
    while i < table.len()
        invariant
            i <= table@.len(),
            table@.len() == BINDING_COUNT,
            forall|k: int| 0 <= k < BINDING_COUNT ==> (#[trigger] table@[k])@ == binding_table()[k],
            rows@.len() == help_rows_upto(section, i as int).len(),
            forall|k: int|
                0 <= k < rows@.len() ==> (#[trigger] rows@[k]).0@ == help_rows_upto(section, i as int)[k].0
                    && rows@[k].1@ == help_rows_upto(section, i as int)[k].1,
        decreases table@.len() - i,
    {
        let b = &table[i];
        assert(b@ == binding_table()[i as int]);
        let ghost prev = help_rows_upto(section, i as int);
        if b.section == section {
            let shown = b.display();
            let last = rows.len();
            let same = last > 0 && chars_equal(chars_of(rows[last - 1].1).as_slice(), chars_of(b.desc).as_slice());
            if same {
                let ghost before_rows = rows@;
                let (keys, desc) = rows.remove(last - 1);
                let keys = keys.concat(" / ");
                let keys = keys.concat(shown.as_str());
                rows.push((keys, desc));
                proof {
                    assert forall|k: int|
                        0 <= k < rows@.len() implies (#[trigger] rows@[k]).0@ == help_rows_upto(section, i + 1)[k].0
                            && rows@[k].1@ == help_rows_upto(section, i + 1)[k].1 by {
                        if k < rows@.len() - 1 {
                            assert(rows@[k] == before_rows[k]);
                        }
                    }
                }
            } else {
                rows.push((shown, b.desc));
            }
        }
        i = i + 1;
    }
    rows
}

/// The keys of a modal form.
#[derive(Debug, Clone, Copy, PartialEq, Eq, Structural)]
pub enum ModalKey {
    NextField,
    PrevField,
    Confirm,
    Cancel,
}

/// The keys that mean a modal key.
pub open spec fn modal_keys_spec(key: ModalKey) -> Seq<(KeyCode, KeyModifiers)> {
    match key {
        ModalKey::NextField => seq![(KeyCode::Tab, no_mods()), (KeyCode::Down, no_mods())],
        ModalKey::PrevField => seq![(KeyCode::BackTab, no_mods()), (KeyCode::Up, no_mods())],
        ModalKey::Confirm => seq![(KeyCode::Enter, no_mods())],
        ModalKey::Cancel => seq![(KeyCode::Esc, no_mods())],
    }
}

/// The keys that mean `key` in a modal form.
pub fn modal_keys(key: ModalKey) -> (r: Vec<(KeyCode, KeyModifiers)>)
    ensures
        r@ == modal_keys_spec(key),
{
    let mut keys: Vec<(KeyCode, KeyModifiers)> = Vec::new();
    match key {
        ModalKey::NextField => {
            keys.push((KeyCode::Tab, no_mods()));
            keys.push((KeyCode::Down, no_mods()));
        },
        ModalKey::PrevField => {
            keys.push((KeyCode::BackTab, no_mods()));
            keys.push((KeyCode::Up, no_mods()));
        },
        ModalKey::Confirm => {
            keys.push((KeyCode::Enter, no_mods()));
        },
        ModalKey::Cancel => {
            keys.push((KeyCode::Esc, no_mods()));
        },
    }
    keys
}

/// The modal key a press means: the first, in table order, whose keys
/// accept it.
pub open spec fn modal_lookup_spec(pressed: KeyCode, mods: KeyModifiers) -> Option<ModalKey> {
    if keys_accept(modal_keys_spec(ModalKey::NextField), pressed, mods) {
        Some(ModalKey::NextField)
    } else if keys_accept(modal_keys_spec(ModalKey::PrevField), pressed, mods) {
        Some(ModalKey::PrevField)
    } else if keys_accept(modal_keys_spec(ModalKey::Confirm), pressed, mods) {
        Some(ModalKey::Confirm)
    } else if keys_accept(modal_keys_spec(ModalKey::Cancel), pressed, mods) {
        Some(ModalKey::Cancel)
    } else {
        None
    }
}

/// The modal key a press means (see [`modal_lookup_spec`]).
pub fn modal_lookup(pressed: KeyCode, mods: KeyModifiers) -> (r: Option<ModalKey>)
    ensures
        r == modal_lookup_spec(pressed, mods),
{
    if accepts(modal_keys(ModalKey::NextField).as_slice(), pressed, mods) {
        Some(ModalKey::NextField)
    } else if accepts(modal_keys(ModalKey::PrevField).as_slice(), pressed, mods) {
        Some(ModalKey::PrevField)
    } else if accepts(modal_keys(ModalKey::Confirm).as_slice(), pressed, mods) {
        Some(ModalKey::Confirm)
    } else if accepts(modal_keys(ModalKey::Cancel).as_slice(), pressed, mods) {
        Some(ModalKey::Cancel)
    } else {
        None
    }
}

/// Draws the keys for a modal key.
pub fn modal_display_for(key: ModalKey) -> (r: String)
    ensures
        r@ == keys_text(modal_keys_spec(key)),
{
    let keys = modal_keys(key);
    render_keys(keys.as_slice())
}

/// An answer to a yes/no question.
#[derive(Debug, Clone, Copy, PartialEq, Eq, Structural)]
pub enum ConfirmChoice {
    Yes,
    No,
}

/// The keys that give an answer.
pub open spec fn confirm_keys_spec(choice: ConfirmChoice) -> Seq<(KeyCode, KeyModifiers)> {
    match choice {
        ConfirmChoice::Yes => seq![
            (KeyCode::Char('y'), no_mods()),
            (KeyCode::Char('Y'), no_mods()),
            (KeyCode::Enter, no_mods()),
        ],
        ConfirmChoice::No => seq![
            (KeyCode::Char('n'), no_mods()),
            (KeyCode::Char('N'), no_mods()),
            (KeyCode::Esc, no_mods()),
        ],
    }
}

/// The keys that give `choice`.
pub fn confirm_keys(choice: ConfirmChoice) -> (r: Vec<(KeyCode, KeyModifiers)>)
    ensures
        r@ == confirm_keys_spec(choice),
{
    let mut keys: Vec<(KeyCode, KeyModifiers)> = Vec::new();
    match choice {
        ConfirmChoice::Yes => {
            keys.push((KeyCode::Char('y'), no_mods()));
            keys.push((KeyCode::Char('Y'), no_mods()));
            keys.push((KeyCode::Enter, no_mods()));
        },
        ConfirmChoice::No => {
            keys.push((KeyCode::Char('n'), no_mods()));
            keys.push((KeyCode::Char('N'), no_mods()));
            keys.push((KeyCode::Esc, no_mods()));
        },
    }
    keys
}

/// The answer a press gives: yes first, then no.
pub open spec fn confirm_lookup_spec(pressed: KeyCode, mods: KeyModifiers) -> Option<ConfirmChoice> {
    if keys_accept(confirm_keys_spec(ConfirmChoice::Yes), pressed, mods) {
        Some(ConfirmChoice::Yes)
    } else if keys_accept(confirm_keys_spec(ConfirmChoice::No), pressed, mods) {
        Some(ConfirmChoice::No)
    } else {
        None
    }
}

/// The answer a press gives (see [`confirm_lookup_spec`]).
pub fn confirm_lookup(pressed: KeyCode, mods: KeyModifiers) -> (r: Option<ConfirmChoice>)
    ensures
        r == confirm_lookup_spec(pressed, mods),
{
    if accepts(confirm_keys(ConfirmChoice::Yes).as_slice(), pressed, mods) {
        Some(ConfirmChoice::Yes)
    } else if accepts(confirm_keys(ConfirmChoice::No).as_slice(), pressed, mods) {
        Some(ConfirmChoice::No)
    } else {
        None
    }
}

/// Draws the first key that gives `choice`.
pub fn confirm_display_for(choice: ConfirmChoice) -> (r: String)
    ensures
        r@ == key_text(confirm_keys_spec(choice)[0].0, confirm_keys_spec(choice)[0].1),
{
    let keys = confirm_keys(choice);
    render_key(keys[0].0, keys[0].1)
}

/// The footer's slots: an action and the word for it.
pub open spec fn footer_slots() -> Seq<(Action, Seq<char>)> {
    seq![
        (Action::MoveUp, "select"@),
        (Action::Activate, "play"@),
        (Action::TogglePlayback, "pause"@),
        (Action::TogglePanel, "playlists"@),
        (Action::ToggleHelp, "more"@),
        (Action::Quit, "quit"@),
    ]
}

/// The footer hint of the first `n` slots: each slot's keys and word,
/// joined by a spaced middle dot.
pub open spec fn footer_upto(n: int) -> Seq<char>
    decreases n,
{
    if n <= 0 {
        Seq::empty()
    } else if n == 1 {
        display_for_spec(footer_slots()[0].0) + " "@ + footer_slots()[0].1
    } else {
        footer_upto(n - 1) + " \u{b7} "@ + display_for_spec(footer_slots()[n - 1].0) + " "@
            + footer_slots()[n - 1].1
    }
}

/// One footer slot: the keys for `action`, then `verb`.
fn footer_slot(action: Action, verb: &str) -> (r: String)
    ensures
        r@ == display_for_spec(action) + " "@ + verb@,
{
    let keys = display_for(action);
    let out = keys.concat(" ");
    out.concat(verb)
}

/// The hint along the bottom of the screen.
pub fn footer_hint() -> (r: String)
    ensures
        r@ == footer_upto(6),
{
    let out = footer_slot(Action::MoveUp, "select");
    assert(out@ == footer_upto(1));
    let out = out.concat(" \u{b7} ");
    let slot = footer_slot(Action::Activate, "play");
    let out = out.concat(slot.as_str());
    assert(out@ =~= footer_upto(2));
    let out = out.concat(" \u{b7} ");
    let slot = footer_slot(Action::TogglePlayback, "pause");
    let out = out.concat(slot.as_str());
    assert(out@ =~= footer_upto(3));
    let out = out.concat(" \u{b7} ");
    let slot = footer_slot(Action::TogglePanel, "playlists");
    let out = out.concat(slot.as_str());
    assert(out@ =~= footer_upto(4));
    let out = out.concat(" \u{b7} ");
    let slot = footer_slot(Action::ToggleHelp, "more");
    let out = out.concat(slot.as_str());
    assert(out@ =~= footer_upto(5));
    let out = out.concat(" \u{b7} ");
    let slot = footer_slot(Action::Quit, "quit");
    let out = out.concat(slot.as_str());
    assert(out@ =~= footer_upto(6));
    out
}


/// The key the confirm dialog draws for an answer is one the dialog
/// accepts as that answer.
pub proof fn lemma_confirm_key_drawn_is_accepted(choice: ConfirmChoice)
    ensures
        confirm_lookup_spec(confirm_keys_spec(choice)[0].0, confirm_keys_spec(choice)[0].1) == Some(
            choice,
        ),
{
    let k = confirm_keys_spec(choice)[0];
    assert(mods_match_spec(k.1, k.1));
    match choice {
        ConfirmChoice::Yes => {
            assert(keys_accept(confirm_keys_spec(ConfirmChoice::Yes), k.0, k.1));
        },
        ConfirmChoice::No => {
            let yes = confirm_keys_spec(ConfirmChoice::Yes);
            assert(!keys_accept(yes, k.0, k.1)) by {
                assert forall|j: int| 0 <= j < yes.len() implies !(yes[j].0 == k.0 && mods_match_spec(yes[j].1, k.1)) by {
                }
            }
            assert(keys_accept(confirm_keys_spec(ConfirmChoice::No), k.0, k.1));
        },
    }
}

/// Every key a modal form draws for a modal key is read back as that key.
pub proof fn lemma_modal_keys_drawn_are_accepted(key: ModalKey, j: int)
    requires
        0 <= j < modal_keys_spec(key).len(),
    ensures
        modal_lookup_spec(modal_keys_spec(key)[j].0, modal_keys_spec(key)[j].1) == Some(key),
{
    let k = modal_keys_spec(key)[j];
    assert(keys_accept(modal_keys_spec(key), k.0, k.1));
    assert forall|m: ModalKey| m != key implies !#[trigger] keys_accept(modal_keys_spec(m), k.0, k.1) by {
        let s = modal_keys_spec(m);
        assert forall|i: int| 0 <= i < s.len() implies !(s[i].0 == k.0 && mods_match_spec(s[i].1, k.1)) by {
        }
    }
}

/// A row with keys of its own and no text of its own is drawn from its
/// keys.
pub proof fn lemma_binding_label_comes_from_its_keys(i: int)
    requires
        0 <= i < BINDING_COUNT,
        binding_table()[i].display_override is None,
        binding_table()[i].keys.len() > 0,
    ensures
        binding_display_spec(binding_table()[i]) == keys_text(binding_table()[i].keys),
{
}

} // verus!
