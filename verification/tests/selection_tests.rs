use lyre::layout::Row;
use lyre::keymap::{display_for, Action};
use lyre::selection::{selected_song_ids, toggle_visual, visual_range};
use lyre::song::SongId;

fn id(n: usize) -> SongId {
    SongId::compute(&format!("/music/{n}.wav"))
}

fn rows() -> Vec<Row> {
    vec![
        Row::Header("Alpha".to_string()),
        Row::Song(id(0), 1),
        Row::Song(id(1), 1),
        Row::Header("Beta".to_string()),
        Row::Song(id(2), 1),
    ]
}

#[test]
fn the_visual_range_runs_from_the_anchor_to_the_cursor_either_way() {
    let rows = rows();
    assert_eq!(visual_range(&rows, id(1), Some(4)), Some((2, 4)));
    assert_eq!(visual_range(&rows, id(2), Some(1)), Some((1, 4)));
    assert_eq!(visual_range(&rows, id(0), None), None);
    assert_eq!(visual_range(&rows, id(9), Some(1)), None);
}

#[test]
fn a_visual_selection_acts_on_the_songs_it_spans_skipping_headers() {
    let rows = rows();
    let (ids, ended) = selected_song_ids(&rows, Some(id(0)), Some(4));
    assert_eq!(ids, vec![id(0), id(1), id(2)]);
    assert!(!ended);
    let (ids, _) = selected_song_ids(&rows, Some(id(0)), Some(9));
    assert!(ids.is_empty(), "a span past the rows selects nothing");
}

#[test]
fn without_a_visual_selection_the_song_under_the_cursor_is_selected() {
    let rows = rows();
    let (ids, ended) = selected_song_ids(&rows, None, Some(2));
    assert_eq!(ids, vec![id(1)]);
    assert!(ended);
    let (ids, _) = selected_song_ids(&rows, None, Some(0));
    assert!(ids.is_empty(), "a heading is no song");
    let (ids, ended) = selected_song_ids(&rows, Some(id(7)), Some(4));
    assert_eq!(ids, vec![id(2)]);
    assert!(ended, "a selection whose song is gone is ended");
}

#[test]
fn toggling_the_visual_selection_starts_it_on_a_song_and_ends_it() {
    let rows = rows();
    let (visual, message) = toggle_visual(false, None, &rows, Some(2));
    assert_eq!(visual, Some(id(1)));
    let key = display_for(Action::OpenSongModal);
    assert_eq!(message, format!("visual selection started \u{2014} move the cursor, then press {key}"));
    let (visual, message) = toggle_visual(false, visual, &rows, Some(2));
    assert_eq!(visual, None);
    assert_eq!(message, "cancelled visual selection");
    let (visual, message) = toggle_visual(false, None, &rows, Some(0));
    assert_eq!(visual, None);
    assert_eq!(message, "select a song first");
    let (visual, message) = toggle_visual(true, Some(id(0)), &rows, Some(1));
    assert_eq!(visual, Some(id(0)));
    assert_eq!(message, "visual selection isn't available while browsing playlists");
}
