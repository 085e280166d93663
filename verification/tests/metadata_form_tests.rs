use lyre::keymap::{no_mods, KeyCode, KeyModifiers};
use lyre::metadata_form::{
    metadata_form_key, romanized_applied_message, romanized_offer, MetadataEditModal, MetadataField,
};
use lyre::song::{MetadataEdits, SongId};
use lyre::strings::StatusKind;
use lyre::youtube::FormFieldOutcome;

fn open() -> MetadataEditModal {
    let edits = MetadataEdits { title: "Anchor".to_string(), artist: "Alpha".to_string(), ..MetadataEdits::default() };
    MetadataEditModal::open(SongId::compute("/music/Alpha/0-Anchor.wav"), edits)
}

fn press(modal: MetadataEditModal, code: KeyCode, mods: KeyModifiers) -> MetadataEditModal {
    match metadata_form_key(modal, code, mods) {
        FormFieldOutcome::Updated(m) => m,
        other => panic!("the editor must stay open, got {other:?}"),
    }
}

#[test]
fn metadata_field_visible_hides_the_romanized_fields_by_default() {
    let edits = MetadataEdits::default();
    let visible = MetadataField::visible(&edits);
    assert!(!visible.contains(&MetadataField::TitleSort));
    assert!(!visible.contains(&MetadataField::ArtistSort));
}

#[test]
fn metadata_field_visible_shows_title_sort_only_when_the_title_needs_romanization() {
    let edits = MetadataEdits { title: "夜明け".to_string(), ..MetadataEdits::default() };
    let visible = MetadataField::visible(&edits);
    assert!(visible.contains(&MetadataField::TitleSort));
    assert!(!visible.contains(&MetadataField::ArtistSort));
}

#[test]
fn metadata_modal_typing_a_non_ascii_title_reveals_the_title_sort_field_in_the_tab_order() {
    let mut modal = open();
    for c in "夜明け".chars() {
        modal = press(modal, KeyCode::Char(c), no_mods());
    }
    let visible = MetadataField::visible(&modal.edits);
    assert!(visible.contains(&MetadataField::TitleSort), "a non-ASCII title must reveal the romanized field");
    let modal = press(modal, KeyCode::Tab, no_mods());
    assert_eq!(modal.focused, MetadataField::TitleSort);
}

#[test]
fn metadata_modal_tab_and_shift_tab_cycle_through_every_field_and_wrap() {
    let mut modal = open();
    let visible = MetadataField::visible(&modal.edits);
    for expected in &visible {
        assert_eq!(modal.focused, *expected);
        modal = press(modal, KeyCode::Tab, no_mods());
    }
    assert_eq!(modal.focused, MetadataField::Title, "tabbing past the last field must wrap back to the first");
    let modal = press(modal, KeyCode::BackTab, no_mods());
    assert_eq!(modal.focused, *visible.last().unwrap(), "shift-tab from the first field must wrap back to the last");
}

#[test]
fn typing_y_and_n_into_a_metadata_field_still_inserts_characters() {
    let mut modal = open();
    let before = MetadataField::Title.value(&modal.edits).to_string();
    for c in "Nirvana".chars() {
        modal = press(modal, KeyCode::Char(c), no_mods());
    }
    assert_eq!(
        MetadataField::Title.value(&modal.edits),
        format!("{before}Nirvana"),
        "y and n must be literal characters in a text field, never confirm/cancel"
    );
}

#[test]
fn control_modified_arrow_does_not_move_the_metadata_modal_field_cursor() {
    let modal = open();
    assert_eq!(modal.focused, MetadataField::Title, "sanity: the form starts on Title");
    let control = KeyModifiers { control: true, ..no_mods() };
    let modal = press(modal, KeyCode::Down, control);
    let modal = press(modal, KeyCode::Tab, control);
    assert_eq!(
        modal.focused,
        MetadataField::Title,
        "modifier-stuffed presses must not act as plain field-navigation keys"
    );
}

#[test]
fn backspace_deletes_from_the_focused_field_and_enter_submits() {
    let mut modal = open();
    modal.error = Some("invalid track number \"x\"".to_string());
    let modal = press(modal, KeyCode::Backspace, no_mods());
    assert_eq!(modal.edits.title, "Ancho");
    assert!(modal.error.is_none());
    assert_eq!(modal.edits.artist, "Alpha");
    assert!(matches!(metadata_form_key(modal.clone(), KeyCode::Enter, no_mods()), FormFieldOutcome::Confirmed(_)));
    assert!(matches!(metadata_form_key(modal, KeyCode::Esc, no_mods()), FormFieldOutcome::Cancelled));
}

#[test]
fn a_new_romanized_artist_is_offered_unless_blank_or_unchanged() {
    assert_eq!(romanized_offer("  Yoake Band ", "Old"), Some("Yoake Band".to_string()));
    assert_eq!(romanized_offer("   ", "Old"), None);
    assert_eq!(romanized_offer(" Same", "Same "), None);
}

#[test]
fn applying_a_romanized_artist_reports_how_many_songs_took_it() {
    assert_eq!(
        romanized_applied_message(0),
        ("no other songs needed the romanized artist".to_string(), StatusKind::Info)
    );
    assert_eq!(
        romanized_applied_message(1),
        ("applied romanized artist to 1 other song".to_string(), StatusKind::Success)
    );
    assert_eq!(
        romanized_applied_message(3),
        ("applied romanized artist to 3 other songs".to_string(), StatusKind::Success)
    );
}
