use lyre::library::{add_scanned, InsertOutcome, Library};
use lyre::playlist::PlaylistId;
use lyre::queue::Queue;
use lyre::random::{below_from, fisher_yates};
use lyre::song::{Metadata, Song, SongId};
use lyre::strings::StatusKind;
use lyre::youtube::{
    finalize_step, DownloadStatus, FetchStatus, FinalizeAction, FinalizeEvent, YoutubeField, YoutubeFieldsModal,
    YoutubeModal,
};

fn tagged(path: &str, title: &str) -> Song {
    let metadata = Metadata { title: Some(title.to_string()), artist: Some("Artist".to_string()), ..Metadata::default() };
    Song::from_cached_with_stat(path.to_string(), 0, 0, metadata)
}

#[test]
fn library_get_and_contains_agree_with_each_other() {
    let mut library = Library::empty("/music".to_string());
    library.insert(tagged("/music/one.wav", "One"));
    let id = library.ids_by_path()[0];
    assert!(library.contains(id));
    assert!(library.get(id).is_some());

    let bogus = SongId::compute("/nowhere");
    assert!(!library.contains(bogus));
    assert!(library.get(bogus).is_none());
}

#[test]
fn library_insert_adds_a_new_song_and_reports_inserted() {
    let song = tagged("/music/one.wav", "One");
    let id = song.id();
    let mut library = Library::empty("/music".to_string());
    let outcome = library.insert(song);
    assert_eq!(outcome, InsertOutcome::Inserted(id));
    assert!(library.contains(id));
    assert_eq!(library.ids_by_path(), &[id]);
}

#[test]
fn library_insert_reports_a_collision_without_replacing_the_existing_song() {
    let first = tagged("/music/one.wav", "One");
    let second = tagged("/music/one.wav", "Other title");
    let id = first.id();
    let mut library = Library::empty("/music".to_string());
    library.insert(first);
    let outcome = library.insert(second);
    assert_eq!(outcome, InsertOutcome::Collision { existing: id });
    assert_eq!(library.len(), 1);
    assert_eq!(library.get(id).unwrap().title(), "One", "the first song is kept");
}

#[test]
fn library_ids_by_path_are_sorted_by_file_path() {
    let mut library = Library::empty("/music".to_string());
    let c = tagged("/music/b/c.wav", "C");
    let a = tagged("/music/a.wav", "A");
    let b = tagged("/music/b.wav", "B");
    let (ia, ib, ic) = (a.id(), b.id(), c.id());
    library.insert(c);
    library.insert(a);
    library.insert(b);
    assert_eq!(library.ids_by_path(), vec![ia, ic, ib], "a directory sorts before a longer name it begins");
}

#[test]
fn a_scanned_song_whose_id_is_taken_is_skipped_with_a_warning_only_for_another_path() {
    let mut library = Library::empty("/music".to_string());
    let first = add_scanned(&mut library, tagged("/music/one.wav", "One"));
    assert!(!first.skipped && first.warning.is_none());
    let again = add_scanned(&mut library, tagged("/music/one.wav", "One"));
    assert!(again.skipped);
    assert_eq!(again.warning, None, "the same file twice is no collision worth a warning");
    assert_eq!(library.len(), 1);
}

#[test]
fn replacing_a_song_keeps_its_id_and_changes_its_tags() {
    let mut library = Library::empty("/music".to_string());
    let song = tagged("/music/one.wav", "One");
    let id = song.id();
    library.insert(song);
    assert!(library.replace(tagged("/music/one.wav", "Renamed")));
    assert_eq!(library.get(id).unwrap().title(), "Renamed");
    assert!(!library.replace(tagged("/music/two.wav", "Two")), "a song not there is not added");
    assert_eq!(library.len(), 1);
}

fn fields() -> YoutubeFieldsModal {
    YoutubeFieldsModal {
        url: "https://example.com/watch?v=x".to_string(),
        title: "Yoake".to_string(),
        artist: "夜明けバンド".to_string(),
        album: "Dawn".to_string(),
        title_sort: String::new(),
        artist_sort: " Yoake Band ".to_string(),
        directory: "./".to_string(),
        file_name: "YoakeBand-Yoake.mp3".to_string(),
        file_name_overridden: false,
        focused: YoutubeField::Title,
        error: None,
        fetch_status: FetchStatus::Pending,
        download_status: DownloadStatus::Pending,
    }
}

fn step(event: FinalizeEvent) -> (Option<YoutubeModal>, FinalizeAction, Option<(String, StatusKind)>) {
    finalize_step(fields(), "/tmp/d.mp3".to_string(), "/music/YoakeBand-Yoake.mp3".to_string(), event)
}

#[test]
fn a_download_that_cannot_be_saved_brings_the_form_back_for_a_retry() {
    let (modal, action, status) = step(FinalizeEvent::Saved(Err("disk full".to_string())));
    assert!(matches!(action, FinalizeAction::Nothing));
    assert_eq!(status, Some(("download finished, but failed to save it: disk full".to_string(), StatusKind::Error)));
    match modal {
        Some(YoutubeModal::EditingFields(f)) => {
            assert_eq!(f.download_status, DownloadStatus::Ready("/tmp/d.mp3".to_string()));
            assert_eq!(f.title, "Yoake");
        }
        other => panic!("expected the form back, got {other:?}"),
    }
}

#[test]
fn a_saved_download_is_tagged_then_read_back_then_added() {
    let (modal, action, status) = step(FinalizeEvent::Saved(Ok(())));
    assert!(modal.is_none() && status.is_none());
    match action {
        FinalizeAction::WriteTags { dest_path, edits } => {
            assert_eq!(dest_path, "/music/YoakeBand-Yoake.mp3");
            assert_eq!(edits.title, "Yoake");
            assert_eq!(edits.album, "Dawn");
            assert_eq!(edits.artist_sort, " Yoake Band ");
            assert!(edits.genre.is_empty() && edits.track.is_empty() && edits.date.is_empty());
        }
        other => panic!("expected the tags to be written, got {other:?}"),
    }
    let (_, action, _) = step(FinalizeEvent::Tagged(Ok(())));
    assert!(matches!(action, FinalizeAction::LoadBack { dest_path } if dest_path == "/music/YoakeBand-Yoake.mp3"));
    let id = SongId::compute("/music/YoakeBand-Yoake.mp3");
    let (_, action, _) = step(FinalizeEvent::Loaded(Ok((id, "夜明けバンド - Yoake".to_string()))));
    assert!(matches!(action, FinalizeAction::Insert));
    let (modal, action, status) = step(FinalizeEvent::Inserted {
        outcome: InsertOutcome::Inserted(id),
        label: "夜明けバンド - Yoake".to_string(),
        library_queue: true,
    });
    assert!(modal.is_none());
    assert_eq!(status, Some(("downloaded and added: 夜明けバンド - Yoake".to_string(), StatusKind::Success)));
    match action {
        FinalizeAction::Added { id: added, queue, romanized } => {
            assert_eq!(added, id);
            assert!(queue);
            assert_eq!(romanized, Some("Yoake Band".to_string()));
        }
        other => panic!("expected the song to be added, got {other:?}"),
    }
}

#[test]
fn each_later_failure_of_finishing_a_download_is_reported() {
    let (_, _, status) = step(FinalizeEvent::Tagged(Err("bad frame".to_string())));
    assert_eq!(status, Some(("downloaded, but failed to tag: bad frame".to_string(), StatusKind::Error)));
    let (_, _, status) = step(FinalizeEvent::Loaded(Err("unreadable".to_string())));
    assert_eq!(
        status,
        Some(("downloaded and tagged, but failed to load it back: unreadable".to_string(), StatusKind::Error))
    );
    let id = SongId::compute("/music/YoakeBand-Yoake.mp3");
    let (_, action, status) = step(FinalizeEvent::Inserted {
        outcome: InsertOutcome::Collision { existing: id },
        label: String::new(),
        library_queue: true,
    });
    assert!(matches!(action, FinalizeAction::Nothing));
    assert_eq!(status, Some(("downloaded song already exists in the library".to_string(), StatusKind::Info)));
}

#[test]
fn a_song_added_while_a_playlist_plays_is_not_queued() {
    let id = SongId::compute("/music/x.mp3");
    let (_, action, _) =
        step(FinalizeEvent::Inserted { outcome: InsertOutcome::Inserted(id), label: "x".to_string(), library_queue: false });
    assert!(matches!(action, FinalizeAction::Added { queue: false, .. }));
}

#[test]
fn a_drawn_id_keeps_every_drawn_bit_but_the_version_and_variant() {
    let id = PlaylistId::from_drawn([0xff; 16]);
    assert_eq!(id.to_string(), "ffffffff-ffff-4fff-bfff-ffffffffffff");
    let id = PlaylistId::from_drawn([0; 16]);
    assert_eq!(id.to_string(), "00000000-0000-4000-8000-000000000000");
    let drawn: [u8; 16] = [0x12, 0x34, 0x56, 0x78, 0x9a, 0xbc, 0xde, 0xf0, 0x11, 0x22, 0x33, 0x44, 0x55, 0x66, 0x77, 0x88];
    assert_eq!(PlaylistId::from_drawn(drawn).to_string(), "12345678-9abc-4ef0-9122-334455667788");
}

#[test]
fn a_draw_is_kept_below_the_last_whole_multiple_and_rejected_above() {
    assert_eq!(below_from(10, 17), Some(7));
    assert_eq!(below_from(10, 0), Some(0));
    let zone = (u64::MAX / 10) * 10;
    assert_eq!(below_from(10, zone - 1), Some((zone - 1) % 10));
    assert_eq!(below_from(10, zone), None);
    assert_eq!(below_from(10, u64::MAX), None);
}

#[test]
fn fisher_yates_swaps_each_position_with_its_pick() {
    let mut v = vec!['a', 'b', 'c', 'd'];
    fisher_yates(&mut v, &[0, 1, 1]);
    assert_eq!(v, vec!['d', 'c', 'b', 'a']);
    let mut v = vec!['a', 'b', 'c', 'd'];
    fisher_yates(&mut v, &[3, 2, 1]);
    assert_eq!(v, vec!['a', 'b', 'c', 'd'], "picking each position itself leaves the order");
}

#[test]
fn a_queue_shuffled_by_given_picks_keeps_the_song_playing() {
    let songs: Vec<SongId> = (0..4).map(|i| SongId::compute(&format!("/music/{i}.wav"))).collect();
    let mut queue = Queue::new(songs.clone());
    queue.play_id(songs[1]);
    queue.shuffle_with(&[0, 1, 1]);
    assert_eq!(queue.current_id(), Some(songs[1]));
    assert_eq!(queue.upcoming(1), vec![songs[0]], "after d c b a, b is followed by a");
    queue.affirm_well_formed();
}
