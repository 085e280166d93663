use lyre::playback::{jump_to_upcoming, queue_for, QueueSource, UpNextJump};
use lyre::queue::Queue;
use lyre::dialogs::{
    confirm_quit_step, confirm_remove_step, dir_input_step, pending_number_step, search_key_step, ConfirmOutcome,
    DirInputOutcome,
};
use lyre::keymap::{display_for, no_mods, Action, KeyCode, KeyModifiers};
use lyre::playlist::PlaylistStore;
use lyre::song::SongId;
use lyre::strings::StatusKind;

fn store_with_song() -> (PlaylistStore, lyre::playlist::PlaylistId, SongId) {
    let mut playlists = PlaylistStore::empty("playlists.json".to_string());
    let playlist = playlists.create("First");
    let song_id = SongId::compute("/music/Alpha/0-Anchor.wav");
    playlists.add_song(playlist, song_id);
    (playlists, playlist, song_id)
}

#[test]
fn enter_confirms_the_remove_song_dialog_instead_of_dismissing_it() {
    let (mut playlists, playlist, song_id) = store_with_song();
    let (outcome, status) =
        confirm_remove_step(KeyCode::Enter, no_mods(), &mut playlists, playlist, song_id, Some("Alpha - Anchor"));
    assert_eq!(outcome, ConfirmOutcome::Confirmed);
    assert!(!playlists.contains(playlist, song_id), "Enter must confirm the remove, not dismiss the dialog");
    assert_eq!(status, Some(("removed Alpha - Anchor".to_string(), StatusKind::Success)));
}

#[test]
fn unknown_keys_leave_the_remove_song_dialog_open() {
    let (mut playlists, playlist, song_id) = store_with_song();
    let (outcome, status) = confirm_remove_step(KeyCode::Char('x'), no_mods(), &mut playlists, playlist, song_id, None);
    assert_eq!(outcome, ConfirmOutcome::Open, "an unknown key must leave the remove dialog open");
    assert_eq!(status, None);
    assert!(playlists.contains(playlist, song_id), "the song must stay in the playlist");

    let (outcome, _) = confirm_remove_step(KeyCode::Esc, no_mods(), &mut playlists, playlist, song_id, None);
    assert_eq!(outcome, ConfirmOutcome::Cancelled, "Esc cancels the remove dialog");
    assert!(playlists.contains(playlist, song_id));
}

#[test]
fn confirm_dialogs_stay_open_on_unrecognized_keys() {
    let (mut playlists, playlist, song_id) = store_with_song();
    for c in "xz ".chars() {
        let (outcome, _) = confirm_remove_step(KeyCode::Char(c), no_mods(), &mut playlists, playlist, song_id, None);
        assert_eq!(outcome, ConfirmOutcome::Open, "unrecognized key {c} must leave the remove confirmation open");
    }
    assert!(playlists.contains(playlist, song_id));
    let (outcome, _) = confirm_quit_step(KeyCode::Char('x'), no_mods());
    assert_eq!(outcome, ConfirmOutcome::Open, "an unrecognized key must leave the quit confirmation open");
}

#[test]
fn unknown_keys_leave_confirm_dialogs_open() {
    let (outcome, status) = confirm_quit_step(KeyCode::Char('x'), no_mods());
    assert_eq!(outcome, ConfirmOutcome::Open);
    assert_eq!(status, None);
    let (outcome, status) = confirm_quit_step(KeyCode::Esc, no_mods());
    assert_eq!(outcome, ConfirmOutcome::Cancelled, "Esc must cancel the quit confirmation");
    assert_eq!(status, Some(("quit cancelled".to_string(), StatusKind::Info)));
}

#[test]
fn removing_a_song_that_is_not_there_reports_a_failure() {
    let mut playlists = PlaylistStore::empty("playlists.json".to_string());
    let playlist = playlists.create("First");
    let song_id = SongId::compute("/music/a.wav");
    let (outcome, status) = confirm_remove_step(KeyCode::Char('y'), no_mods(), &mut playlists, playlist, song_id, None);
    assert_eq!(outcome, ConfirmOutcome::Confirmed);
    assert_eq!(status, Some(("failed to remove song from playlist".to_string(), StatusKind::Error)));
}

#[test]
fn a_removed_song_without_a_label_is_called_this_song() {
    let (mut playlists, playlist, song_id) = store_with_song();
    let (_, status) = confirm_remove_step(KeyCode::Char('Y'), no_mods(), &mut playlists, playlist, song_id, None);
    assert_eq!(status, Some(("removed this song".to_string(), StatusKind::Success)));
}

#[test]
fn the_directory_being_typed_is_edited_scanned_or_cancelled() {
    let outcome = dir_input_step("/mus".to_string(), KeyCode::Char('i'), no_mods());
    assert_eq!(outcome, DirInputOutcome::Editing("/musi".to_string()));
    let outcome = dir_input_step("/musi".to_string(), KeyCode::Backspace, no_mods());
    assert_eq!(outcome, DirInputOutcome::Editing("/mus".to_string()));
    let outcome = dir_input_step("/music".to_string(), KeyCode::Enter, no_mods());
    assert_eq!(outcome, DirInputOutcome::Scan("/music".to_string()));
    let outcome = dir_input_step("/music".to_string(), KeyCode::Esc, no_mods());
    assert_eq!(outcome, DirInputOutcome::Cancel);
}

#[test]
fn esc_clears_a_filtering_search_before_closing_it() {
    let step = search_key_step("ab".to_string(), true, KeyCode::Esc);
    assert_eq!(step.query, "");
    assert!(step.open && step.changed);
    let step = search_key_step(String::new(), false, KeyCode::Esc);
    assert!(!step.open && !step.changed);
    let step = search_key_step("ab".to_string(), true, KeyCode::Char('?'));
    assert_eq!(step.query, "ab?");
    assert!(step.open && step.changed, "search owns input, so ? is typed");
    let step = search_key_step("ab".to_string(), true, KeyCode::Enter);
    assert_eq!(step.query, "ab");
    assert!(!step.open && !step.changed);
}

#[test]
fn digits_build_the_number_to_jump_ahead_up_to_three() {
    let step = pending_number_step("", KeyCode::Char('4'));
    assert!(!step.dispatch && !step.had_pending_number);
    assert_eq!(step.pending, "4");
    let key = display_for(Action::NextOrJump);
    assert_eq!(step.status, Some(format!("jump to Up Next #4 (press {key}, <Esc> to cancel)")));

    let step = pending_number_step("123", KeyCode::Char('4'));
    assert_eq!(step.pending, "123");
    assert_eq!(step.status, None);
    assert!(!step.dispatch);

    let step = pending_number_step("12", KeyCode::Char('n'));
    assert!(step.dispatch && step.had_pending_number);
    assert_eq!(step.pending, "12");

    let step = pending_number_step("12", KeyCode::Esc);
    assert!(step.dispatch && step.had_pending_number);
    assert_eq!(step.pending, "");
}

fn song_ids(n: usize) -> Vec<SongId> {
    (0..n).map(|i| SongId::compute(&format!("/music/{i}.wav"))).collect()
}

#[test]
fn jumping_ahead_plays_the_song_at_that_up_next_position() {
    let songs = song_ids(4);
    let mut queue = Queue::new(songs.clone());
    assert_eq!(jump_to_upcoming(&mut queue, "2"), UpNextJump::Play(songs[1]));
    assert_eq!(queue.current_id(), Some(songs[1]));
    assert_eq!(jump_to_upcoming(&mut queue, "+1"), UpNextJump::Play(songs[2]));
}

#[test]
fn jumping_ahead_refuses_zero_text_and_an_empty_up_next() {
    let songs = song_ids(2);
    let mut queue = Queue::new(songs.clone());
    assert_eq!(jump_to_upcoming(&mut queue, "0"), UpNextJump::Refused("Up Next positions start at 1".to_string()));
    assert_eq!(jump_to_upcoming(&mut queue, ""), UpNextJump::Refused("invalid Up Next position".to_string()));
    assert_eq!(jump_to_upcoming(&mut queue, "1x"), UpNextJump::Refused("invalid Up Next position".to_string()));
    assert_eq!(queue.current_id(), None, "a refused jump leaves the queue as it was");
    let mut empty = Queue::new(Vec::new());
    assert_eq!(jump_to_upcoming(&mut empty, "3"), UpNextJump::Refused("Up Next is empty".to_string()));
}

#[test]
fn replaying_the_same_list_keeps_the_queue_and_its_shuffle() {
    let songs = song_ids(6);
    let mut queue = Queue::new(songs.clone());
    queue.shuffle();
    let shuffled = queue.upcoming(6);
    let queue = queue_for(queue, QueueSource::Library, QueueSource::Library, songs.clone());
    assert_eq!(queue.upcoming(6), shuffled, "a replay of the same list must not undo the shuffle");
}

#[test]
fn a_new_order_or_another_source_rebuilds_the_queue() {
    let songs = song_ids(3);
    let mut queue = Queue::new(songs.clone());
    queue.play_id(songs[1]);
    let reversed: Vec<SongId> = songs.iter().rev().copied().collect();
    let rebuilt = queue_for(queue, QueueSource::Library, QueueSource::Library, reversed.clone());
    assert_eq!(rebuilt.ordered_ids(), reversed);
    assert_eq!(rebuilt.current_id(), None);

    let mut playlists = PlaylistStore::empty("playlists.json".to_string());
    let mix = playlists.create("Mix");
    let mut queue = Queue::new(songs.clone());
    queue.play_id(songs[0]);
    let rebuilt = queue_for(queue, QueueSource::Library, QueueSource::Playlist(mix), songs.clone());
    assert_eq!(rebuilt.current_id(), None, "another source starts a new queue");
}

#[test]
fn control_enter_in_the_directory_field_does_not_confirm_or_close_it() {
    let control = KeyModifiers { control: true, ..no_mods() };
    let outcome = dir_input_step("/music".to_string(), KeyCode::Enter, control);
    assert_eq!(outcome, DirInputOutcome::Editing("/music".to_string()), "Ctrl+Enter is not Confirm");
    let outcome = dir_input_step("/music".to_string(), KeyCode::Enter, no_mods());
    assert_eq!(outcome, DirInputOutcome::Scan("/music".to_string()), "plain Enter confirms");
}

#[test]
fn pending_number_digits_are_disclosed_when_a_non_digit_key_arrives() {
    let step = pending_number_step("", KeyCode::Char('1'));
    let step = pending_number_step(&step.pending, KeyCode::Char('2'));
    assert_eq!(step.pending, "12");
    let step = pending_number_step(&step.pending, KeyCode::Char('j'));
    assert!(step.pending.is_empty(), "a non-digit key must clear the pending jump number");
    let step = pending_number_step(&step.pending, KeyCode::Char('5'));
    let step = pending_number_step(&step.pending, KeyCode::Esc);
    assert!(step.pending.is_empty(), "Esc must cancel the pending jump number");
}
