use lyre::keymap::{no_mods, KeyCode, KeyModifiers};
use lyre::picker::{
    add_to_playlist_picker, apply_picker_choice, open_song_menu, rebuild_picker, remove_from_playlist_picker,
    song_menu_step, visible_choose_action_fields, ChooseActionField, MenuEffect, PickerKind, PlaylistPicker,
    SongMenu,
};
use lyre::strings::StatusKind;
use lyre::playlist::PlaylistStore;
use lyre::song::SongId;

fn store() -> PlaylistStore {
    PlaylistStore::empty("playlists.json".to_string())
}

#[test]
fn the_add_side_panel_keeps_pinned_playlists_out_of_its_options_after_rebuilding() {
    let mut playlists = store();
    let mix = playlists.create("Mix");
    let other = playlists.create("Other");
    let song_id = SongId::compute("/music/Alpha/0-Anchor.wav");
    playlists.add_song(mix, song_id);

    for _ in 0..3 {
        match add_to_playlist_picker(&playlists, None, &[song_id]) {
            Some(PlaylistPicker::Add { options, pinned, selected }) => {
                assert!(!options.contains(&mix), "the pinned playlist \"Mix\" must never appear in options");
                assert_eq!(options, vec![other]);
                assert_eq!(pinned, vec![mix]);
                assert_eq!(selected, 0);
            }
            other => panic!("expected the add-to-playlist side panel, got {other:?}"),
        }
    }
}

#[test]
fn a_playlist_containing_only_some_selected_songs_is_not_treated_as_pinned() {
    let mut playlists = store();
    let playlist = playlists.create("Mix");
    let songs: Vec<SongId> = (0..3).map(|i| SongId::compute(&format!("/music/{i}.wav"))).collect();
    playlists.add_song(playlist, songs[0]);

    let Some(PlaylistPicker::Add { options, pinned, .. }) = add_to_playlist_picker(&playlists, None, &songs)
    else {
        panic!("expected the add-to-playlist side panel")
    };
    assert!(pinned.is_empty(), "a playlist containing only some of the selected songs must not be pinned");
    assert_eq!(options.as_slice(), [playlist]);
}

#[test]
fn selecting_remove_from_playlist_lists_only_the_playlists_containing_the_song() {
    let mut playlists = store();
    let first = playlists.create("First");
    playlists.create("Second");
    let song_id = SongId::compute("/music/Alpha/0-Anchor.wav");
    playlists.add_song(first, song_id);

    let Some(PlaylistPicker::Remove { options, selected }) = remove_from_playlist_picker(&playlists, &[song_id])
    else {
        panic!("expected the remove-from-playlist side panel")
    };
    assert_eq!(options.as_slice(), [first]);
    assert_eq!(selected, 0);
}

#[test]
fn no_menu_is_offered_when_there_is_nothing_to_choose() {
    let mut playlists = store();
    let song_id = SongId::compute("/music/a.wav");
    assert_eq!(remove_from_playlist_picker(&playlists, &[song_id]), None);
    assert_eq!(add_to_playlist_picker(&playlists, None, &[song_id]), None);

    let only = playlists.create("Only");
    assert_eq!(remove_from_playlist_picker(&playlists, &[song_id]), None);
    assert_eq!(
        add_to_playlist_picker(&playlists, Some(only), &[song_id]),
        None,
        "the playlist on view is never offered"
    );
}

#[test]
fn the_playlist_on_view_is_pinned_first() {
    let mut playlists = store();
    let a = playlists.create("A");
    let b = playlists.create("B");
    let c = playlists.create("C");
    let song_id = SongId::compute("/music/a.wav");
    playlists.add_song(a, song_id);

    let Some(PlaylistPicker::Add { options, pinned, .. }) = add_to_playlist_picker(&playlists, Some(c), &[song_id])
    else {
        panic!("expected the add-to-playlist side panel")
    };
    assert_eq!(pinned, vec![c, a]);
    assert_eq!(options, vec![b]);
}

#[test]
fn remove_from_playlist_option_is_hidden_when_the_song_is_not_in_any_playlist() {
    let mut playlists = store();
    playlists.create("First");
    let song_id = SongId::compute("/music/Alpha/0-Anchor.wav");
    assert_eq!(
        visible_choose_action_fields(&playlists, &[song_id]),
        vec![ChooseActionField::AddToPlaylist, ChooseActionField::CreatePlaylist],
        "Remove from Playlist must be skipped when the song isn't in any playlist"
    );
}

#[test]
fn song_modal_cycles_through_add_remove_and_create_when_the_song_is_in_a_playlist() {
    let mut playlists = store();
    let playlist_id = playlists.create("First");
    let song_id = SongId::compute("/music/Alpha/0-Anchor.wav");
    playlists.add_song(playlist_id, song_id);
    assert_eq!(
        visible_choose_action_fields(&playlists, &[song_id]),
        vec![
            ChooseActionField::AddToPlaylist,
            ChooseActionField::RemoveFromPlaylist,
            ChooseActionField::CreatePlaylist
        ]
    );
}

#[test]
fn without_playlists_only_creating_one_is_offered() {
    let playlists = store();
    let song_id = SongId::compute("/music/a.wav");
    assert_eq!(visible_choose_action_fields(&playlists, &[song_id]), vec![ChooseActionField::CreatePlaylist]);
}

#[test]
fn a_rebuilt_menu_keeps_its_options_and_selection() {
    let mut playlists = store();
    let a = playlists.create("A");
    let b = playlists.create("B");
    assert_eq!(
        rebuild_picker(PickerKind::Add, &[a, b], None, 1),
        PlaylistPicker::Add { options: vec![a, b], pinned: vec![], selected: 1 }
    );
    assert_eq!(
        rebuild_picker(PickerKind::Add, &[a], Some(vec![b]), 0),
        PlaylistPicker::Add { options: vec![a], pinned: vec![b], selected: 0 }
    );
    assert_eq!(
        rebuild_picker(PickerKind::Remove, &[b], Some(vec![a]), 0),
        PlaylistPicker::Remove { options: vec![b], selected: 0 }
    );
}

fn press(menu: SongMenu, code: KeyCode, playlists: &mut PlaylistStore) -> (Option<SongMenu>, MenuEffect) {
    song_menu_step(menu, code, no_mods(), playlists, None)
}

fn picker_selection(menu: &SongMenu) -> usize {
    match menu.picker.as_ref().expect("expected the side panel") {
        PlaylistPicker::Add { selected, .. } => *selected,
        PlaylistPicker::Remove { selected, .. } => *selected,
    }
}

#[test]
fn song_modal_tab_and_shift_tab_move_focus_like_j_and_k() {
    let mut playlists = store();
    playlists.create("First");
    let song = SongId::compute("/music/Alpha/0-Anchor.wav");
    let menu = open_song_menu(&playlists, song, None);
    assert_eq!(menu.selected, ChooseActionField::AddToPlaylist);

    let (menu, _) = press(menu, KeyCode::Tab, &mut playlists);
    let menu = menu.expect("the menu stays open");
    assert_eq!(
        menu.selected,
        ChooseActionField::CreatePlaylist,
        "Tab must move focus in the song actions modal, matching the metadata modal"
    );

    let (menu, _) = press(menu, KeyCode::BackTab, &mut playlists);
    assert_eq!(
        menu.expect("the menu stays open").selected,
        ChooseActionField::AddToPlaylist,
        "Shift+Tab must move focus back, matching the metadata modal"
    );
}

#[test]
fn song_modal_side_panel_tab_and_shift_tab_move_selection_like_j_and_k() {
    let mut playlists = store();
    playlists.create("First");
    playlists.create("Second");
    let song = SongId::compute("/music/Alpha/0-Anchor.wav");
    let menu = open_song_menu(&playlists, song, None);
    let (menu, _) = press(menu, KeyCode::Enter, &mut playlists);
    let menu = menu.expect("the menu stays open");
    assert!(matches!(menu.picker, Some(PlaylistPicker::Add { .. })), "expected the add-to-playlist side panel");
    let start = picker_selection(&menu);

    let (menu, _) = press(menu, KeyCode::Tab, &mut playlists);
    let menu = menu.expect("the menu stays open");
    assert_ne!(picker_selection(&menu), start, "Tab must move the side panel selection, matching j/Down");

    let (menu, _) = press(menu, KeyCode::BackTab, &mut playlists);
    let menu = menu.expect("the menu stays open");
    assert_eq!(
        picker_selection(&menu),
        start,
        "Shift+Tab must move the side panel selection back, matching k/Up"
    );
}

#[test]
fn song_modal_side_panel_j_and_k_move_selection_like_tab() {
    let mut playlists = store();
    playlists.create("First");
    playlists.create("Second");
    let song = SongId::compute("/music/Alpha/0-Anchor.wav");
    let menu = open_song_menu(&playlists, song, None);
    let (menu, _) = press(menu, KeyCode::Enter, &mut playlists);
    let menu = menu.expect("the menu stays open");
    let start = picker_selection(&menu);

    let (menu, _) = press(menu, KeyCode::Char('j'), &mut playlists);
    let menu = menu.expect("the menu stays open");
    assert_ne!(picker_selection(&menu), start, "j must move the side panel selection down, matching Tab/Down");

    let (menu, _) = press(menu, KeyCode::Char('k'), &mut playlists);
    let menu = menu.expect("the menu stays open");
    assert_eq!(picker_selection(&menu), start, "k must move the side panel selection back up, matching BackTab/Up");
}

#[test]
fn esc_closes_the_song_actions_modal_when_a_side_action_field_is_selected() {
    let mut playlists = store();
    playlists.create("First");
    let song = SongId::compute("/music/Alpha/0-Anchor.wav");

    let menu = open_song_menu(&playlists, song, None);
    assert_eq!(menu.selected, ChooseActionField::AddToPlaylist);
    let (menu, effect) = press(menu, KeyCode::Esc, &mut playlists);
    assert!(menu.is_none(), "Esc must close the song actions modal when Add to Playlist is selected");
    assert_eq!(effect, MenuEffect::Nothing);

    let menu = open_song_menu(&playlists, song, None);
    let (menu, _) = press(menu, KeyCode::Tab, &mut playlists);
    let menu = menu.expect("the menu stays open");
    assert_eq!(menu.selected, ChooseActionField::CreatePlaylist);
    let (menu, _) = press(menu, KeyCode::Esc, &mut playlists);
    assert!(menu.is_none(), "Esc must close the song actions modal when Create Playlist is selected");
}

#[test]
fn confirming_add_to_playlist_in_batch_mode_adds_every_selected_song() {
    let mut playlists = store();
    let playlist = playlists.create("Mix");
    let expected_ids: Vec<SongId> = (0..3).map(|i| SongId::compute(&format!("/music/{i}.wav"))).collect();

    let menu = open_song_menu(&playlists, expected_ids[0], Some(expected_ids.clone()));
    let (menu, _) = press(menu, KeyCode::Enter, &mut playlists);
    let (menu, effect) = press(menu.expect("the side panel opens"), KeyCode::Enter, &mut playlists);

    for id in &expected_ids {
        assert!(playlists.contains(playlist, *id), "expected song {id:?} to be added");
    }
    match effect {
        MenuEffect::Status(text, kind) => {
            assert!(text.contains("added 3 songs to \"Mix\""));
            assert_eq!(kind, StatusKind::Success);
        }
        other => panic!("expected a status message, got {other:?}"),
    }
    assert!(menu.is_none(), "the song modal should close after the batch add");
}

#[test]
fn confirming_a_remove_from_playlist_selection_removes_the_song_and_closes_the_modal() {
    let mut playlists = store();
    let first = playlists.create("First");
    let song_id = SongId::compute("/music/Alpha/0-Anchor.wav");
    playlists.add_song(first, song_id);

    let menu = open_song_menu(&playlists, song_id, None);
    let (menu, _) = press(menu, KeyCode::Tab, &mut playlists);
    let menu = menu.expect("the menu stays open");
    assert_eq!(menu.selected, ChooseActionField::RemoveFromPlaylist);
    let (menu, _) = press(menu, KeyCode::Enter, &mut playlists);
    let (menu, effect) = press(menu.expect("the side panel opens"), KeyCode::Enter, &mut playlists);

    assert!(!playlists.contains(first, song_id), "the song should be removed from the playlist");
    match effect {
        MenuEffect::Status(text, _) => assert!(text.contains("removed from \"First\"")),
        other => panic!("expected a status message, got {other:?}"),
    }
    assert!(menu.is_none(), "the song modal should close after removing");
}

#[test]
fn a_blank_playlist_name_is_refused_and_the_menu_stays_open() {
    let mut playlists = store();
    let song = SongId::compute("/music/a.wav");
    let menu = open_song_menu(&playlists, song, None);
    assert_eq!(menu.selected, ChooseActionField::CreatePlaylist);
    let (menu, _) = press(menu, KeyCode::Char(' '), &mut playlists);
    let (menu, effect) = press(menu.unwrap(), KeyCode::Enter, &mut playlists);
    assert_eq!(effect, MenuEffect::Status("playlist name can't be empty".to_string(), StatusKind::Error));
    let menu = menu.expect("the menu stays open");
    assert_eq!(menu.name_input, " ");
    assert!(playlists.is_empty());
}

#[test]
fn typing_a_name_and_pressing_enter_creates_the_playlist_with_the_songs() {
    let mut playlists = store();
    let song = SongId::compute("/music/a.wav");
    let mut menu = open_song_menu(&playlists, song, None);
    for c in [' ', 'j', 'a', 'z', 'x'] {
        let (next, effect) = press(menu, KeyCode::Char(c), &mut playlists);
        assert_eq!(effect, MenuEffect::Nothing);
        menu = next.unwrap();
    }
    assert_eq!(menu.selected, ChooseActionField::CreatePlaylist, "j is typed, not a move");
    let (next, _) = press(menu, KeyCode::Backspace, &mut playlists);
    let menu = next.unwrap();
    assert_eq!(menu.name_input, " jaz");
    let (next, effect) = press(menu, KeyCode::Enter, &mut playlists);
    assert!(next.is_none());
    assert_eq!(effect, MenuEffect::Status("created \"jaz\" and added the song".to_string(), StatusKind::Success));
    assert_eq!(playlists.len(), 1);
    let id = playlists.ids_sorted_by_name()[0];
    let created = playlists.get(id).unwrap();
    assert_eq!(created.name(), "jaz");
    assert_eq!(created.songs(), &[song]);
}

#[test]
fn creating_a_playlist_for_a_batch_counts_the_songs_in_its_message() {
    let mut playlists = store();
    let songs: Vec<SongId> = (0..4).map(|i| SongId::compute(&format!("/music/{i}.wav"))).collect();
    let mut menu = open_song_menu(&playlists, songs[0], Some(songs.clone()));
    for c in "Road".chars() {
        menu = press(menu, KeyCode::Char(c), &mut playlists).0.unwrap();
    }
    let (_, effect) = press(menu, KeyCode::Enter, &mut playlists);
    assert_eq!(effect, MenuEffect::Status("created \"Road\" and added 4 songs".to_string(), StatusKind::Success));
    let id = playlists.ids_sorted_by_name()[0];
    assert_eq!(playlists.get(id).unwrap().songs(), songs.as_slice());
}

#[test]
fn enter_on_add_without_other_playlists_explains_why() {
    let mut playlists = store();
    let only = playlists.create("Only");
    let song = SongId::compute("/music/a.wav");
    let menu = open_song_menu(&playlists, song, None);
    let (menu, effect) = song_menu_step(menu, KeyCode::Enter, no_mods(), &mut playlists, Some(only));
    assert_eq!(
        effect,
        MenuEffect::Status(
            "no other playlists to add to -- select Create Playlist instead".to_string(),
            StatusKind::Info
        )
    );
    let menu = menu.expect("the menu stays open");
    assert!(menu.picker.is_none());
}

#[test]
fn cancelling_the_side_panel_goes_back_to_choosing_an_action() {
    let mut playlists = store();
    playlists.create("First");
    let song = SongId::compute("/music/a.wav");
    let menu = open_song_menu(&playlists, song, None);
    let (menu, _) = press(menu, KeyCode::Enter, &mut playlists);
    let (menu, effect) = press(menu.unwrap(), KeyCode::Esc, &mut playlists);
    assert_eq!(effect, MenuEffect::Nothing);
    let menu = menu.expect("the menu stays open");
    assert!(menu.picker.is_none());
    assert_eq!(menu.selected, ChooseActionField::AddToPlaylist);
}

#[test]
fn applying_a_choice_counts_only_the_songs_that_changed_the_playlist() {
    let mut playlists = store();
    let mix = playlists.create("Mix");
    let songs: Vec<SongId> = (0..3).map(|i| SongId::compute(&format!("/music/{i}.wav"))).collect();
    playlists.add_song(mix, songs[1]);

    let (text, kind) = apply_picker_choice(&mut playlists, PickerKind::Add, mix, &songs);
    assert_eq!(text, "added 2 of 3 songs to \"Mix\"");
    assert_eq!(kind, StatusKind::Success);
    assert_eq!(playlists.get(mix).unwrap().songs(), &[songs[1], songs[0], songs[2]]);

    let (text, kind) = apply_picker_choice(&mut playlists, PickerKind::Add, mix, &songs[..1]);
    assert_eq!(text, "already in \"Mix\"");
    assert_eq!(kind, StatusKind::Info);

    let (text, kind) = apply_picker_choice(&mut playlists, PickerKind::Remove, mix, &songs[..1]);
    assert_eq!(text, "removed from \"Mix\"");
    assert_eq!(kind, StatusKind::Success);
    assert_eq!(playlists.get(mix).unwrap().songs(), &[songs[1], songs[2]]);
}

#[test]
fn applying_a_choice_to_a_playlist_that_is_gone_changes_nothing() {
    let mut playlists = store();
    let mix = playlists.create("Mix");
    let gone = lyre::playlist::PlaylistId::new();
    let song = SongId::compute("/music/a.wav");
    let (text, kind) = apply_picker_choice(&mut playlists, PickerKind::Add, gone, &[song]);
    assert_eq!(text, "already in \"\"");
    assert_eq!(kind, StatusKind::Info);
    assert!(playlists.get(mix).unwrap().songs().is_empty());
}

#[test]
fn control_tab_in_a_song_modal_side_panel_does_not_move_the_list_cursor() {
    let mut playlists = store();
    playlists.create("First");
    playlists.create("Second");
    let song = SongId::compute("/music/Alpha/0-Anchor.wav");
    let menu = open_song_menu(&playlists, song, None);
    let (menu, _) = press(menu, KeyCode::Enter, &mut playlists);
    let menu = menu.expect("the side panel opens");
    let start = picker_selection(&menu);
    let control = KeyModifiers { control: true, ..no_mods() };
    let (menu, _) = song_menu_step(menu, KeyCode::Tab, control, &mut playlists, None);
    assert_eq!(
        picker_selection(&menu.expect("the menu stays open")),
        start,
        "modifier-stuffed presses must not act as side-panel navigation"
    );
}

#[test]
fn song_modal_j_types_into_the_name_field_only_while_create_playlist_is_focused() {
    let mut playlists = store();
    let song = SongId::compute("/music/Alpha/0-Anchor.wav");
    let menu = open_song_menu(&playlists, song, None);
    let (menu, _) = press(menu, KeyCode::Tab, &mut playlists);
    let menu = menu.expect("the menu stays open");
    assert_eq!(menu.selected, ChooseActionField::CreatePlaylist);
    let (menu, _) = press(menu, KeyCode::Char('j'), &mut playlists);
    assert_eq!(
        menu.expect("the menu stays open").name_input,
        "j",
        "with the name field focused, j types a letter instead of moving"
    );
}

#[test]
fn control_down_in_the_song_modal_choose_view_does_not_cycle_the_selection() {
    let mut playlists = store();
    playlists.create("First");
    let song = SongId::compute("/music/Alpha/0-Anchor.wav");
    let menu = open_song_menu(&playlists, song, None);
    assert_eq!(menu.selected, ChooseActionField::AddToPlaylist);
    let control = KeyModifiers { control: true, ..no_mods() };
    let (menu, _) = song_menu_step(menu, KeyCode::Down, control, &mut playlists, None);
    assert_eq!(
        menu.expect("the menu stays open").selected,
        ChooseActionField::AddToPlaylist,
        "modifier-stuffed presses must not act as selection cycling"
    );
}
