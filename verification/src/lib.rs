//! Core logic of the Lyre music player: fuzzy search, the play queue,
//! playlists and the song model, and the player's menus, dialogs and forms
//! key by key.

pub mod text;
pub mod fuzzy;
pub mod song;
pub mod random;
pub mod queue;
pub mod playlist;
pub mod youtube;
pub mod layout;
pub mod names;
pub mod strings;
pub mod theme;
pub mod playback;
pub mod keymap;
pub mod command;
pub mod row_cache;
pub mod calendar;
pub mod order;
pub mod listing;
pub mod picker;
pub mod session;
pub mod dialogs;
pub mod metadata_form;
pub mod selection;
pub mod library;
