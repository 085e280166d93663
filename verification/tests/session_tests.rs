use std::cell::RefCell;

use lyre::playlist::{PlaylistStore, SaveOutcome};
use lyre::session::{dir_scan_report, switch_store};
use lyre::strings::StatusKind;

#[test]
fn a_scan_report_names_the_songs_and_the_root() {
    assert_eq!(
        dir_scan_report(1, "/music", 0, 0, 0, None, None),
        ("loaded 1 song from /music".to_string(), StatusKind::Success)
    );
    assert_eq!(
        dir_scan_report(12, "/music", 2, 3, 1, Some("could not remember /music"), None),
        (
            "loaded 12 songs from /music (2 skipped), removed 3 missing songs from playlists, \
             1 warning \u{2014} see the output after quitting, warning: could not remember /music"
                .to_string(),
            StatusKind::Success
        )
    );
    assert_eq!(
        dir_scan_report(0, "/m", 0, 1, 2, None, Some("device busy")),
        (
            "loaded 0 songs from /m, removed 1 missing song from playlists, 2 warnings \u{2014} see the \
             output after quitting (failed to stop previous playback cleanly: device busy)"
                .to_string(),
            StatusKind::Error
        )
    );
}

#[test]
fn changing_directory_saves_pending_edits_before_reading_the_new_store() {
    let log = RefCell::new(Vec::<String>::new());
    let mut store = PlaylistStore::empty("old.json".to_string());
    store.create("Fresh edit");

    let outcome = switch_store(
        &mut store,
        |s| {
            log.borrow_mut().push(format!("save {}", s.path()));
            SaveOutcome::Saved
        },
        |o| {
            log.borrow_mut().push(format!("load after {o:?}"));
            PlaylistStore::empty("new.json".to_string())
        },
    );
    assert_eq!(outcome, SaveOutcome::Saved);
    assert_eq!(*log.borrow(), vec!["save old.json".to_string(), "load after Saved".to_string()]);
    assert_eq!(store.path(), "new.json");
    assert!(store.is_empty());
}

#[test]
fn changing_directory_with_nothing_pending_only_reads() {
    let mut store = PlaylistStore::empty("old.json".to_string());
    let mut saves = 0;
    let outcome = switch_store(
        &mut store,
        |_| {
            saves += 1;
            SaveOutcome::Saved
        },
        |_| PlaylistStore::empty("new.json".to_string()),
    );
    assert_eq!(outcome, SaveOutcome::NothingToSave);
    assert_eq!(saves, 0);
    assert_eq!(store.path(), "new.json");
}
