use lyre::keymap::{no_mods, KeyCode};
use lyre::strings::StatusKind;
use lyre::youtube::{
    youtube_event_step, youtube_form_key, youtube_modal_step, DownloadEvent, DownloadStatus, EventAction,
    FetchStatus, FormFieldOutcome, YoutubeEffect, YoutubeField, YoutubeFieldsModal, YoutubeModal,
};

fn youtube_fields(url: &str, focused: YoutubeField) -> YoutubeFieldsModal {
    YoutubeFieldsModal {
        url: url.to_string(),
        title: String::new(),
        artist: String::new(),
        album: String::new(),
        title_sort: String::new(),
        artist_sort: String::new(),
        directory: String::new(),
        file_name: String::new(),
        file_name_overridden: false,
        focused,
        error: None,
        fetch_status: FetchStatus::Pending,
        download_status: DownloadStatus::Pending,
    }
}

fn entering_url() -> YoutubeModal {
    YoutubeModal::EnteringUrl { url_input: String::new(), error: None, restore: None }
}

fn press(modal: YoutubeModal, code: KeyCode) -> (Option<YoutubeModal>, YoutubeEffect) {
    youtube_modal_step(modal, code, no_mods())
}

fn type_text(mut modal: YoutubeModal, text: &str) -> YoutubeModal {
    for c in text.chars() {
        modal = press(modal, KeyCode::Char(c)).0.expect("typing keeps the dialog open");
    }
    modal
}

fn downloading(fields: YoutubeFieldsModal, progress: f64) -> YoutubeModal {
    YoutubeModal::Downloading {
        file_name: "song.mp3".to_string(),
        dest_path: "/music/song.mp3".to_string(),
        fields,
        progress: progress.to_bits(),
    }
}

#[test]
fn youtube_modal_entering_url_accumulates_typed_characters_and_esc_cancels() {
    let modal = type_text(entering_url(), "hi");
    match &modal {
        YoutubeModal::EnteringUrl { url_input, .. } => assert_eq!(url_input, "hi"),
        _ => panic!("expected EnteringUrl"),
    }
    let (modal, _) = press(modal, KeyCode::Esc);
    assert!(modal.is_none());
}

#[test]
fn without_the_youtube_feature_submitting_a_url_fails_gracefully_instead_of_hanging() {
    let modal = type_text(entering_url(), "https://example.com/watch?v=x");
    let (modal, effect) = press(modal, KeyCode::Enter);
    match effect {
        YoutubeEffect::Fetch(url) => assert_eq!(url, "https://example.com/watch?v=x"),
        other => panic!("submitting must ask for the fetch, got {other:?}"),
    }
    let (modal, action) = youtube_event_step(
        modal,
        DownloadEvent::Failed("YouTube support was not built into this binary".to_string()),
    );
    assert!(matches!(action, EventAction::Nothing));
    match modal.expect("a failure must not silently close the modal") {
        YoutubeModal::EnteringUrl { url_input, error, .. } => {
            assert_eq!(url_input, "https://example.com/watch?v=x");
            assert_eq!(error.as_deref(), Some("YouTube support was not built into this binary"));
        }
        _ => panic!("a failure must bounce the user back to the URL screen"),
    }
}

#[test]
fn a_blank_address_is_refused_and_the_address_is_trimmed_on_submit() {
    let modal = type_text(entering_url(), "   ");
    let (modal, effect) = press(modal, KeyCode::Enter);
    assert!(matches!(effect, YoutubeEffect::Nothing));
    let modal = match modal.expect("the dialog stays open") {
        YoutubeModal::EnteringUrl { url_input, error, restore } => {
            assert_eq!(url_input, "   ");
            assert_eq!(error.as_deref(), Some("enter a URL first"));
            YoutubeModal::EnteringUrl { url_input, error, restore }
        }
        _ => panic!("expected EnteringUrl"),
    };
    let modal = type_text(modal, "u ");
    match &modal {
        YoutubeModal::EnteringUrl { error, .. } => assert!(error.is_none(), "typing clears the error"),
        _ => panic!("expected EnteringUrl"),
    }
    let (modal, effect) = press(modal, KeyCode::Enter);
    match effect {
        YoutubeEffect::Fetch(url) => assert_eq!(url, "u"),
        other => panic!("expected a fetch, got {other:?}"),
    }
    match modal.expect("the form opens") {
        YoutubeModal::EditingFields(fields) => {
            assert_eq!(fields.url, "u");
            assert_eq!(fields.directory, "./");
            assert_eq!(fields.focused, YoutubeField::Title);
        }
        _ => panic!("expected EditingFields"),
    }
}

#[test]
fn youtube_modal_auto_generates_the_file_name_from_title_and_artist_until_overridden() {
    let modal = YoutubeModal::EditingFields(youtube_fields("https://example.com/watch?v=x", YoutubeField::Title));
    let modal = type_text(modal, "Bush");
    let (modal, _) = press(modal, KeyCode::Tab);
    let modal = type_text(modal.unwrap(), "Kate");
    match &modal {
        YoutubeModal::EditingFields(fields) => {
            assert_eq!(fields.file_name, "Kate-Bush.mp3");
            assert!(!fields.file_name_overridden);
        }
        _ => panic!("expected EditingFields"),
    }
}

#[test]
fn typing_in_the_file_name_keeps_it_from_being_regenerated() {
    let mut fields = youtube_fields("https://example.com/watch?v=x", YoutubeField::FileName);
    fields.file_name = "mine".to_string();
    fields.error = Some("filename can't be empty".to_string());
    let FormFieldOutcome::Updated(fields) = youtube_form_key(fields, KeyCode::Char('s'), no_mods()) else {
        panic!("typing updates the form")
    };
    assert_eq!(fields.file_name, "mines");
    assert!(fields.file_name_overridden);
    assert!(fields.error.is_none());
    let fields = YoutubeFieldsModal { focused: YoutubeField::Title, ..fields };
    let FormFieldOutcome::Updated(fields) = youtube_form_key(fields, KeyCode::Char('T'), no_mods()) else {
        panic!("typing updates the form")
    };
    assert_eq!(fields.title, "T");
    assert_eq!(fields.file_name, "mines");
    let FormFieldOutcome::Updated(fields) = youtube_form_key(fields, KeyCode::Backspace, no_mods()) else {
        panic!("deleting updates the form")
    };
    assert_eq!(fields.title, "");
    assert!(matches!(youtube_form_key(fields.clone(), KeyCode::Esc, no_mods()), FormFieldOutcome::Cancelled));
    assert!(matches!(youtube_form_key(fields, KeyCode::Enter, no_mods()), FormFieldOutcome::Confirmed(_)));
}

#[test]
fn youtube_field_visible_hides_the_romanized_fields_by_default() {
    let fields = youtube_fields("https://example.com/watch?v=x", YoutubeField::Title);
    let visible = YoutubeField::visible(&fields);
    assert!(!visible.contains(&YoutubeField::TitleSort));
    assert!(!visible.contains(&YoutubeField::ArtistSort));
}

#[test]
fn youtube_modal_typing_a_non_ascii_artist_reveals_the_artist_sort_field_in_the_tab_order() {
    let modal = YoutubeModal::EditingFields(youtube_fields("https://example.com/watch?v=x", YoutubeField::Artist));
    let modal = type_text(modal, "夜明けバンド");
    match &modal {
        YoutubeModal::EditingFields(fields) => {
            let visible = YoutubeField::visible(fields);
            assert!(visible.contains(&YoutubeField::ArtistSort), "a non-ASCII artist must reveal the romanized field");
        }
        _ => panic!("expected EditingFields"),
    }
    let (modal, _) = press(modal, KeyCode::Tab);
    match modal.unwrap() {
        YoutubeModal::EditingFields(fields) => assert_eq!(fields.focused, YoutubeField::ArtistSort),
        _ => panic!("expected EditingFields"),
    }
}

#[test]
fn keys_do_not_reset_the_shown_download_progress() {
    let fields = youtube_fields("https://example.com/watch?v=x", YoutubeField::Title);
    let (modal, _) = press(downloading(fields, 42.0), KeyCode::Char('x'));
    match modal.unwrap() {
        YoutubeModal::Downloading { progress, .. } => {
            assert_eq!(f64::from_bits(progress), 42.0, "a keystroke must not reset the progress bar")
        }
        _ => panic!("the downloading modal must stay open"),
    }
}

#[test]
fn esc_during_a_download_gives_feedback_and_keeps_the_modal_open() {
    let fields = youtube_fields("https://example.com/watch?v=x", YoutubeField::Title);
    let (modal, effect) = press(downloading(fields, 10.0), KeyCode::Esc);
    assert!(matches!(modal, Some(YoutubeModal::Downloading { .. })));
    match effect {
        YoutubeEffect::Status(text, kind) => {
            assert!(text.contains("download in progress"));
            assert_eq!(kind, StatusKind::Info);
        }
        other => panic!("expected a status message, got {other:?}"),
    }
}

#[test]
fn overwriting_waits_for_the_download_or_saves_the_one_already_there() {
    let fields = youtube_fields("https://example.com/watch?v=x", YoutubeField::Directory);
    let asking = YoutubeModal::ResolvingCollision { fields: fields.clone(), existing_path: "/music/a.mp3".to_string() };
    let (modal, _) = press(asking, KeyCode::Char('o'));
    match modal.unwrap() {
        YoutubeModal::Downloading { dest_path, progress, .. } => {
            assert_eq!(dest_path, "/music/a.mp3");
            assert_eq!(f64::from_bits(progress), 0.0);
        }
        _ => panic!("expected the download to be waited for"),
    }

    let ready = YoutubeFieldsModal { download_status: DownloadStatus::Ready("/tmp/x.mp3".to_string()), ..fields.clone() };
    let asking = YoutubeModal::ResolvingCollision { fields: ready, existing_path: "/music/a.mp3".to_string() };
    let (modal, effect) = press(asking, KeyCode::Char('o'));
    assert!(modal.is_none());
    match effect {
        YoutubeEffect::Finalize { temp_path, dest_path, .. } => {
            assert_eq!(temp_path, "/tmp/x.mp3");
            assert_eq!(dest_path, "/music/a.mp3");
        }
        other => panic!("expected the download to be saved, got {other:?}"),
    }

    let asking = YoutubeModal::ResolvingCollision { fields, existing_path: "/music/a.mp3".to_string() };
    let (modal, _) = press(asking, KeyCode::Char('r'));
    match modal.unwrap() {
        YoutubeModal::EditingFields(fields) => assert_eq!(fields.focused, YoutubeField::FileName),
        _ => panic!("expected the form, on the file name"),
    }
}

#[test]
fn a_download_failure_interrupts_the_user_and_preserves_their_fields_for_retry() {
    let mut fields = youtube_fields("https://example.com/watch?v=x", YoutubeField::Album);
    fields.title = "Yoake".to_string();
    fields.artist = "Some Band".to_string();
    fields.directory = "custom/subdir".to_string();
    let (modal, _) =
        youtube_event_step(Some(YoutubeModal::EditingFields(fields)), DownloadEvent::Failed("network error".to_string()));
    match modal.expect("a failure must not silently close the modal") {
        YoutubeModal::EnteringUrl { url_input, error, restore } => {
            assert_eq!(url_input, "https://example.com/watch?v=x");
            assert_eq!(error.as_deref(), Some("network error"));
            let restore = restore.as_ref().expect("the typed fields must be preserved for a retry");
            assert_eq!(restore.title, "Yoake");
            assert_eq!(restore.artist, "Some Band");
            assert_eq!(restore.directory, "custom/subdir");
        }
        _ => panic!("a failure must bounce the user back to the URL screen"),
    }
}

#[test]
fn a_fetch_failure_while_still_downloading_also_interrupts_and_preserves_fields() {
    let fields = youtube_fields("https://example.com/watch?v=x", YoutubeField::Title);
    let (modal, _) = youtube_event_step(
        Some(downloading(fields, 0.0)),
        DownloadEvent::Failed("this video is a live stream".to_string()),
    );
    match modal.unwrap() {
        YoutubeModal::EnteringUrl { error, restore, .. } => {
            assert_eq!(error.as_deref(), Some("this video is a live stream"));
            assert!(restore.is_some());
        }
        _ => panic!("a failure while waiting on the download must also interrupt"),
    }
}

#[test]
fn closing_the_modal_after_a_failure_discards_the_saved_fields() {
    let fields = youtube_fields("https://example.com/watch?v=x", YoutubeField::Title);
    let (modal, _) =
        youtube_event_step(Some(YoutubeModal::EditingFields(fields)), DownloadEvent::Failed("network error".to_string()));
    assert!(modal.is_some());
    let (modal, _) = press(modal.unwrap(), KeyCode::Esc);
    assert!(modal.is_none(), "exiting the whole modal must not keep anything around");
}

#[test]
fn a_download_finishing_while_still_editing_fields_is_remembered_without_leaving_the_screen() {
    let fields = youtube_fields("https://example.com/watch?v=x", YoutubeField::Title);
    let temp_path = "/tmp/lyre-test-download.mp3".to_string();
    let (modal, action) =
        youtube_event_step(Some(YoutubeModal::EditingFields(fields)), DownloadEvent::DownloadReady(temp_path.clone()));
    assert!(matches!(action, EventAction::Nothing));
    match modal.unwrap() {
        YoutubeModal::EditingFields(fields) => assert!(
            matches!(&fields.download_status, DownloadStatus::Ready(p) if p == &temp_path),
            "the finished download must be recorded without forcing the user off the fields screen"
        ),
        _ => panic!("the user must stay on EditingFields while still typing"),
    }
}

#[test]
fn a_download_waited_for_is_saved_and_one_nobody_waits_for_is_discarded() {
    let fields = youtube_fields("https://example.com/watch?v=x", YoutubeField::Title);
    let (modal, action) =
        youtube_event_step(Some(downloading(fields, 99.0)), DownloadEvent::DownloadReady("/tmp/d.mp3".to_string()));
    assert!(modal.is_none());
    match action {
        EventAction::Finalize { temp_path, dest_path, .. } => {
            assert_eq!(temp_path, "/tmp/d.mp3");
            assert_eq!(dest_path, "/music/song.mp3");
        }
        other => panic!("expected the download to be saved, got {other:?}"),
    }
    let (modal, action) = youtube_event_step(None, DownloadEvent::DownloadReady("/tmp/e.mp3".to_string()));
    assert!(modal.is_none());
    assert!(matches!(action, EventAction::Discard(p) if p == "/tmp/e.mp3"));
}

#[test]
fn progress_is_shown_only_while_downloading() {
    let fields = youtube_fields("https://example.com/watch?v=x", YoutubeField::Title);
    let (modal, _) = youtube_event_step(Some(downloading(fields, 1.0)), DownloadEvent::Progress(55.5f64.to_bits()));
    match modal.unwrap() {
        YoutubeModal::Downloading { progress, .. } => assert_eq!(f64::from_bits(progress), 55.5),
        _ => panic!("expected the download to go on"),
    }
}

#[test]
fn info_ready_while_editing_fields_updates_the_inline_status_without_touching_typed_fields() {
    let mut fields = youtube_fields("https://example.com/watch?v=x", YoutubeField::Title);
    fields.title = "user typed this".to_string();
    let (modal, _) = youtube_event_step(
        Some(YoutubeModal::EditingFields(fields)),
        DownloadEvent::InfoReady {
            title: "Fetched Video Title".to_string(),
            uploader: Some("Some Uploader".to_string()),
        },
    );
    match modal.unwrap() {
        YoutubeModal::EditingFields(fields) => {
            assert_eq!(fields.title, "user typed this", "fetched info must never overwrite what the user typed");
            match &fields.fetch_status {
                FetchStatus::Ready { title, uploader } => {
                    assert_eq!(title, "Fetched Video Title");
                    assert_eq!(uploader.as_deref(), Some("Some Uploader"));
                }
                FetchStatus::Pending => panic!("fetch status must update to Ready"),
            }
        }
        _ => panic!("expected EditingFields"),
    }
}
