use lyre::calendar::{civil_from_days, format_duration, format_mtime};
use lyre::command::{action_command, command_for_key, esc_command, Command, EscContext};
use lyre::keymap::{
    self, alt_mods, bindings, ctrl_mods, no_mods, Action, ConfirmChoice, Direction, KeyCode,
    KeyModifiers, ModalKey, Section,
};
use lyre::layout::{
    allocate_title_artist_widths, artist_rows, compute_jump, dir_rows, label_for, marquee_scroll_offset,
    move_wrapping,
    nearest_selectable, nearest_song_row, song_count, viewport, wrapping_selectable_index, Row,
};
use lyre::names::{cache_file_name, kebab, kebab_case, playlists_file_name};
use lyre::playback::{seek_target, Position};
use lyre::playlist::PlaylistId;
use lyre::row_cache::{Category, Panel, PlaylistView, RowCache, RowsKey, Sort};
use lyre::song::{Metadata, Song, SongId};
use lyre::strings::{add_batch_message, plural, remove_batch_message, status_kind_for, StatusKind};
use lyre::theme::{color_override, hex_channel, hex_digit, line_of, parse_hex_color, Rgb};

#[test]
fn allocate_title_artist_widths_gives_the_title_everything_when_there_is_no_artist() {
    let widths = allocate_title_artist_widths(40, 10, None);
    assert_eq!(widths.title_max, 40);
    assert_eq!(widths.artist_max, None);
}

#[test]
fn allocate_title_artist_widths_leaves_both_untouched_when_both_fit() {
    let widths = allocate_title_artist_widths(49, 10, Some(12));
    assert_eq!(widths.title_max, 10);
    assert_eq!(widths.artist_max, Some(12));
}

#[test]
fn allocate_title_artist_widths_gives_a_short_titles_slack_to_a_long_artist() {
    let widths = allocate_title_artist_widths(49, 5, Some(44));
    assert_eq!(widths.title_max, 5);
    assert_eq!(widths.artist_max, Some(44));
}

#[test]
fn allocate_title_artist_widths_gives_a_short_artists_slack_to_a_long_title() {
    let widths = allocate_title_artist_widths(49, 39, Some(10));
    assert_eq!(widths.title_max, 39);
    assert_eq!(widths.artist_max, Some(10));
}

#[test]
fn allocate_title_artist_widths_falls_back_to_the_ratio_split_when_neither_fits() {
    let widths = allocate_title_artist_widths(49, 45, Some(30));
    assert_eq!(widths.title_max, 34);
    assert_eq!(widths.artist_max, Some(15));
}

#[test]
fn allocate_title_artist_widths_keeps_the_marquee_minimum_when_the_budget_is_tiny() {
    let widths = allocate_title_artist_widths(3, 100, Some(100));
    assert_eq!(widths.title_max, 3);
    assert_eq!(widths.artist_max, Some(0));
}

#[test]
fn left_and_right_arrows_resolve_to_the_new_seek_actions() {
    let back = keymap::lookup(KeyCode::Left, no_mods());
    let forward = keymap::lookup(KeyCode::Right, no_mods());

    assert_eq!(back, Some(Action::SeekBack));
    assert_eq!(forward, Some(Action::SeekForward));

    let help = keymap::help_rows(Section::Global);
    assert!(
        help.iter().any(|(_, desc)| desc.contains("Seek back")),
        "the help overlay must list the seek bindings"
    );
}

#[test]
fn the_key_renderer_produces_the_expected_labels() {
    let cases: &[(KeyCode, KeyModifiers, &str)] = &[
        (KeyCode::Char('j'), no_mods(), "<j>"),
        (KeyCode::Char('G'), no_mods(), "<Shift+G>"),
        (KeyCode::Char(' '), no_mods(), "<Space>"),
        (KeyCode::Char('d'), ctrl_mods(), "<Ctrl+d>"),
        (KeyCode::Char('d'), alt_mods(), "<Alt+d>"),
        (KeyCode::Down, no_mods(), "<\u{2193}>"),
        (KeyCode::Left, no_mods(), "<\u{2190}>"),
        (KeyCode::Enter, no_mods(), "<Enter>"),
        (KeyCode::Esc, no_mods(), "<Esc>"),
        (KeyCode::BackTab, no_mods(), "<Shift+Tab>"),
        (KeyCode::Home, no_mods(), "<Home>"),
    ];

    for &(code, mods, expected) in cases {
        assert_eq!(keymap::render_key(code, mods), expected, "render_key({code:?}, {mods:?})");
    }

    assert_eq!(
        keymap::render_keys(&[(KeyCode::Char('k'), no_mods()), (KeyCode::Up, no_mods())]),
        "<k>/<\u{2191}>",
        "multi-key bindings join with a slash"
    );
}

#[test]
fn every_binding_label_is_derived_from_its_own_keys() {
    for binding in bindings() {
        if binding.display_override.is_some() {
            continue;
        }
        assert!(
            !binding.display().is_empty(),
            "binding {:?} renders a blank help row: it needs keys, an owning action, or an override",
            binding.desc
        );
        if !binding.keys.is_empty() {
            assert_eq!(
                binding.display(),
                keymap::render_keys(&binding.keys),
                "binding {:?} must render from its own keys, not a separate literal",
                binding.desc
            );
        }
    }
}

#[test]
fn the_playlists_help_rows_track_the_keys_that_actually_dispatch() {
    let sort_key = keymap::display_for(Action::CycleSort(Direction::Forwards));
    let category_key = keymap::display_for(Action::CycleCategory(Direction::Forwards));

    let playlist_rows = keymap::help_rows(Section::Playlists);
    let sort_row = playlist_rows
        .iter()
        .find(|(_, desc)| desc.contains("Cycle sort within the open playlist"))
        .expect("the playlists help lists a sort row");
    let category_row = playlist_rows
        .iter()
        .find(|(_, desc)| desc.contains("Cycle category within the open playlist"))
        .expect("the playlists help lists a category row");

    assert!(sort_row.0.contains(&sort_key), "the playlists sort hint {:?} must contain the real sort key {sort_key:?}", sort_row.0);
    assert!(
        category_row.0.contains(&category_key),
        "the playlists category hint {:?} must contain the real category key {category_key:?}",
        category_row.0
    );
}

// ----------------------------------------------------------------------
// Key bindings.

#[test]
fn help_rows_join_consecutive_rows_with_the_same_text() {
    let rows = keymap::help_rows(Section::Global);
    let row = rows.iter().find(|(_, desc)| *desc == "Move selection").unwrap();
    assert_eq!(row.0, "<j>/<\u{2193}> / <k>/<\u{2191}>");
    let library = keymap::help_rows(Section::Library);
    assert_eq!(library[0], ("</>".to_string(), "Search the library (live filter)"));
}

#[test]
fn a_display_override_is_shown_as_written() {
    let rows = keymap::help_rows(Section::Global);
    assert!(rows.iter().any(|(keys, _)| keys == "<1-9> then <n>"));
}

#[test]
fn lookup_ignores_shift_but_not_control() {
    let shifted = KeyModifiers { shift: true, ..no_mods() };
    assert_eq!(keymap::lookup(KeyCode::Char('G'), shifted), Some(Action::JumpBottom));
    assert_eq!(keymap::lookup(KeyCode::Char('d'), ctrl_mods()), Some(Action::PageDown));
    assert_eq!(keymap::lookup(KeyCode::Char('d'), no_mods()), None);
    assert_eq!(keymap::lookup(KeyCode::Char('j'), ctrl_mods()), None);
}

#[test]
fn keys_listed_only_for_the_help_are_not_dispatched() {
    assert_eq!(keymap::lookup(KeyCode::Esc, no_mods()), None);
}

#[test]
fn modal_and_confirm_keys_are_looked_up_and_drawn() {
    assert_eq!(keymap::modal_lookup(KeyCode::Tab, no_mods()), Some(ModalKey::NextField));
    assert_eq!(keymap::modal_lookup(KeyCode::Up, no_mods()), Some(ModalKey::PrevField));
    assert_eq!(keymap::modal_lookup(KeyCode::Char('y'), no_mods()), None);
    assert_eq!(keymap::modal_display_for(ModalKey::NextField), "<Tab>/<\u{2193}>");
    assert_eq!(keymap::confirm_lookup(KeyCode::Char('Y'), no_mods()), Some(ConfirmChoice::Yes));
    assert_eq!(keymap::confirm_lookup(KeyCode::Esc, no_mods()), Some(ConfirmChoice::No));
    assert_eq!(keymap::confirm_display_for(ConfirmChoice::Yes), "<y>");
    assert_eq!(keymap::confirm_display_for(ConfirmChoice::No), "<n>");
}

#[test]
fn the_confirm_dialog_draws_the_same_key_it_actually_accepts() {
    let yes = keymap::confirm_display_for(ConfirmChoice::Yes);
    let no = keymap::confirm_display_for(ConfirmChoice::No);
    let yes_char = yes.trim_matches(|c| c == '<' || c == '>').chars().next().expect("a yes label");
    let no_char = no.trim_matches(|c| c == '<' || c == '>').chars().next().expect("a no label");
    assert_eq!(
        keymap::confirm_lookup(KeyCode::Char(yes_char), no_mods()),
        Some(ConfirmChoice::Yes),
        "the key drawn as the yes label must be accepted as yes"
    );
    assert_eq!(keymap::confirm_lookup(KeyCode::Char(no_char), no_mods()), Some(ConfirmChoice::No));
}

#[test]
fn the_footer_hint_lists_the_main_keys() {
    assert_eq!(
        keymap::footer_hint(),
        "<k>/<\u{2191}> select \u{b7} <Enter> play \u{b7} <Space> pause \u{b7} <Tab> playlists \u{b7} <?> more \u{b7} <q> quit"
    );
}

#[test]
fn display_for_uses_the_first_row_with_keys() {
    assert_eq!(keymap::display_for(Action::OpenSongModal), "<w>");
    assert_eq!(keymap::display_for(Action::ToggleSearch), "</>");
    assert_eq!(keymap::render_key_code(KeyCode::F(5)), "F(5)");
}

// ----------------------------------------------------------------------
// Commands.

fn idle() -> EscContext {
    EscContext {
        had_pending_number: false,
        visual_active: false,
        in_playlists_panel: false,
        viewing_playlist: false,
        playlist_search_active: false,
        library_search_active: false,
    }
}

#[test]
fn escape_unwinds_one_thing_at_a_time() {
    assert_eq!(esc_command(EscContext { had_pending_number: true, visual_active: true, ..idle() }), Some(Command::CancelQueueJump));
    assert_eq!(esc_command(EscContext { visual_active: true, ..idle() }), Some(Command::ToggleVisualSelect));
    assert_eq!(
        esc_command(EscContext { in_playlists_panel: true, viewing_playlist: true, ..idle() }),
        Some(Command::ExitPlaylistView)
    );
    assert_eq!(
        esc_command(EscContext { in_playlists_panel: true, viewing_playlist: true, playlist_search_active: true, ..idle() }),
        Some(Command::ClearSearch)
    );
    assert_eq!(esc_command(EscContext { library_search_active: true, ..idle() }), Some(Command::ClearSearch));
    assert_eq!(esc_command(idle()), Some(Command::RequestQuit));
}

#[test]
fn actions_map_to_commands() {
    assert_eq!(action_command(Action::MoveUp, true), Some(Command::Move(-1)));
    assert_eq!(action_command(Action::PageDown, true), Some(Command::JumpPage(Direction::Forwards)));
    assert_eq!(action_command(Action::NextOrJump, true), Some(Command::NextTrack));
    assert_eq!(action_command(Action::NextOrJump, false), Some(Command::JumpToUpcoming));
    assert_eq!(command_for_key(KeyCode::Char('n'), no_mods(), idle(), true), Some(Command::NextTrack));
    assert_eq!(command_for_key(KeyCode::Esc, no_mods(), idle(), true), Some(Command::RequestQuit));
    assert_eq!(command_for_key(KeyCode::Char('z'), no_mods(), idle(), true), None);
}

// ----------------------------------------------------------------------
// Lists and moving through them.

fn song(name: &str) -> SongId {
    SongId::compute(name)
}

#[test]
fn nearest_song_row_skips_headers_and_wraps() {
    let rows = vec![
        Row::Header("A".to_string()),
        Row::Song(song("a"), 0),
        Row::Header("B".to_string()),
        Row::Song(song("b"), 0),
        Row::Header("C".to_string()),
    ];
    assert_eq!(nearest_song_row(&rows, 1), 1);
    assert_eq!(nearest_song_row(&rows, 2), 3);
    assert_eq!(nearest_song_row(&rows, 4), 1);
    assert_eq!(song_count(&rows), 2);
    let headers = vec![Row::Header("only".to_string())];
    assert_eq!(nearest_song_row(&headers, 0), 0);
}

#[test]
fn wrapping_selectable_index_skips_unselectable_rows() {
    let selectable = [false, true, false, true];
    assert_eq!(wrapping_selectable_index(1, 1, 4, &selectable), 3);
    assert_eq!(wrapping_selectable_index(3, 1, 4, &selectable), 1);
    assert_eq!(wrapping_selectable_index(1, -1, 4, &selectable), 3);
    assert_eq!(wrapping_selectable_index(0, 1, 1, &[false]), 0, "coming back to the start stops the search");
    assert_eq!(wrapping_selectable_index(0, 2, 4, &[false; 4]), 0);
}

#[test]
fn move_wrapping_wraps_both_ways() {
    assert_eq!(move_wrapping(Some(0), 3, -1), Some(2));
    assert_eq!(move_wrapping(Some(2), 3, 1), Some(0));
    assert_eq!(move_wrapping(None, 3, 1), Some(1));
    assert_eq!(move_wrapping(Some(1), 0, 1), Some(1));
}

#[test]
fn nearest_selectable_looks_down_before_up() {
    let selectable = [true, false, true];
    assert_eq!(nearest_selectable(1, 3, &selectable), Some(2));
    assert_eq!(nearest_selectable(9, 3, &selectable), Some(2));
    assert_eq!(nearest_selectable(1, 3, &[true, false, false]), Some(0));
    assert_eq!(nearest_selectable(0, 0, &[]), None);
    assert_eq!(nearest_selectable(1, 2, &[false, false]), None);
}

#[test]
fn compute_jump_centres_the_last_selectable_row_shown() {
    let selectable = [true; 20];
    assert_eq!(compute_jump(0, 20, 5, Direction::Forwards, &selectable), (2, 4));
    assert_eq!(compute_jump(10, 20, 5, Direction::Backwards, &selectable), (8, 10));
    assert_eq!(compute_jump(18, 20, 5, Direction::Forwards, &selectable), (15, 19));
    let mut headers = [false; 20];
    headers[12] = true;
    assert_eq!(compute_jump(0, 20, 5, Direction::Forwards, &headers), (0, 12));
}

#[test]
fn viewport_keeps_the_selection_in_view() {
    let all: Vec<u32> = (0..10).collect();
    let (offset, view) = viewport(Some(7), 0, &all, 4);
    assert_eq!(offset, 4);
    assert_eq!(view.first, 4);
    assert_eq!(view.items, &[4, 5, 6, 7]);
    assert_eq!(view.selected, Some(3));

    let (offset, view) = viewport(Some(1), 6, &all, 4);
    assert_eq!((offset, view.first, view.selected), (1, 1, Some(0)));

    let (_, view) = viewport(None, 9, &all, 4);
    assert_eq!(view.first, 6, "the window never runs past the end");

    let empty: Vec<u32> = Vec::new();
    let (_, view) = viewport(Some(0), 0, &empty, 4);
    assert!(view.items.is_empty());
    assert_eq!(view.selected, None);
}

#[test]
fn artist_rows_start_a_heading_when_the_artist_changes() {
    let a = song("1");
    let b = song("2");
    let c = song("3");
    let rows = artist_rows(&[(a, "X".to_string()), (b, "X".to_string()), (c, "Y".to_string())]);
    assert_eq!(
        rows,
        vec![
            Row::Header("X".to_string()),
            Row::Song(a, 0),
            Row::Song(b, 0),
            Row::Header("Y".to_string()),
            Row::Song(c, 0),
        ]
    );
}

#[test]
fn dir_rows_indent_each_new_directory() {
    let a = song("1");
    let b = song("2");
    let c = song("3");
    let dirs = |names: &[&str]| names.iter().map(|n| n.to_string()).collect::<Vec<_>>();
    let rows = dir_rows(&[
        (a, dirs(&["rock", "live"])),
        (b, dirs(&["rock", "studio"])),
        (c, dirs(&[])),
    ]);
    assert_eq!(
        rows,
        vec![
            Row::Header("rock".to_string()),
            Row::Header("  live".to_string()),
            Row::Song(a, 2),
            Row::Header("  studio".to_string()),
            Row::Song(b, 2),
            Row::Song(c, 0),
        ]
    );
}

#[test]
fn the_row_cache_is_current_only_for_the_key_it_was_built_for() {
    let key = || RowsKey {
        panel: Panel::Library,
        view: PlaylistView::Browsing,
        category: Category::Artist,
        sort: Sort::Title,
        query: "q".to_string(),
        library_revision: 1,
        playlists_revision: 2,
    };
    let mut cache = RowCache::new();
    assert!(!cache.is_current(&key()));
    cache.store(vec![Row::Song(song("a"), 0)], key());
    assert!(cache.is_current(&key()));
    assert!(!cache.is_current(&RowsKey { query: "r".to_string(), ..key() }));
    assert!(!cache.is_current(&RowsKey { view: PlaylistView::Viewing(PlaylistId::new()), ..key() }));
    cache.invalidate();
    assert!(!cache.is_current(&key()));
    assert_eq!(cache.rows_unchecked().len(), 1);
}

// ----------------------------------------------------------------------
// Text.

#[test]
fn the_file_names_come_from_the_application_name() {
    assert_eq!(kebab_case(), "lyre");
    assert_eq!(kebab("  My  Music App "), "my-music-app");
    assert_eq!(cache_file_name(), ".lyre-cache.json");
    assert_eq!(playlists_file_name(), ".lyre-playlists.json");
}

#[test]
fn plural_and_batch_messages() {
    assert_eq!(plural(1, "s"), "");
    assert_eq!(plural(2, "s"), "s");
    assert_eq!(plural(0, "s"), "s");
    assert_eq!(add_batch_message(0, 3, "Mix"), "already in \"Mix\"");
    assert_eq!(add_batch_message(1, 1, "Mix"), "added to \"Mix\"");
    assert_eq!(add_batch_message(3, 3, "Mix"), "added 3 songs to \"Mix\"");
    assert_eq!(remove_batch_message(2, 5, "Mix"), "removed 2 of 5 songs from \"Mix\"");
    assert_eq!(status_kind_for(0), StatusKind::Info);
    assert_eq!(status_kind_for(4), StatusKind::Success);
}

#[test]
fn hex_colors_accept_short_and_long_forms_and_reject_other_shapes() {
    assert_eq!(parse_hex_color("#abc"), Some(Rgb(0xaa, 0xbb, 0xcc)));
    assert_eq!(parse_hex_color("#aabbcc"), Some(Rgb(0xaa, 0xbb, 0xcc)));
    assert_eq!(parse_hex_color("#FF8800"), Some(Rgb(0xff, 0x88, 0x00)));
    for bad in ["aabbc", "#aabb", "#ggg", "red", "12", "#1234567", "#", "", "#ééé"] {
        assert_eq!(parse_hex_color(bad), None, "{bad} must be rejected");
    }
    assert_eq!(hex_digit('f'), Some(15));
    assert_eq!(hex_digit('x'), None);
    assert_eq!(hex_channel('8', '0'), Some(128));
}

#[test]
fn a_bad_hex_value_reports_the_line_it_sits_on() {
    let source = "success = \"#00ff00\"\n\nwarning = \"orange\"\n";
    let start = source.find("\"orange\"").unwrap();
    assert_eq!(line_of(source, start), 3);
    assert_eq!(line_of(source, 0), 1);
    let message = color_override(source, "warning", Some("orange"), start).unwrap_err();
    assert!(message.contains("line 3"), "the error must name line 3, got: {message}");
    assert_eq!(message, "line 3: 'warning' must be \"#rgb\" or \"#rrggbb\", got orange");
    assert_eq!(color_override(source, "success", Some("#00ff00"), 1), Ok(Some(Rgb(0, 0xff, 0))));
    assert_eq!(color_override(source, "focus", None, 0), Ok(None));
}

#[test]
fn line_of_counts_bytes_not_characters() {
    let source = "é\nx";
    assert_eq!(line_of(source, 2), 1);
    assert_eq!(line_of(source, 3), 2);
}

#[test]
fn seeking_moves_forwards_freely_and_stops_at_the_start() {
    let at = |secs| Some(Position { secs, nanos: 500 });
    assert_eq!(seek_target(at(10), 5), Some(Position { secs: 15, nanos: 500 }));
    assert_eq!(seek_target(at(10), -5), Some(Position { secs: 5, nanos: 500 }));
    assert_eq!(seek_target(at(3), -5), Some(Position { secs: 0, nanos: 0 }));
    assert_eq!(seek_target(None, 5), None);
}

// ----------------------------------------------------------------------
// Clock readings and dates.

#[test]
fn format_duration_switches_to_hours_only_past_the_hour_mark() {
    assert_eq!(format_duration(0), "00:00");
    assert_eq!(format_duration(59), "00:59");
    assert_eq!(format_duration(60), "01:00");
    assert_eq!(format_duration(3_599), "59:59");
    assert_eq!(format_duration(3_600), "1:00:00");
    assert_eq!(format_duration(4_530), "1:15:30");
    assert_eq!(format_duration(36_000), "10:00:00");
}

#[test]
fn format_mtime_renders_utc_civil_dates_across_era_boundaries() {
    assert_eq!(format_mtime(0), "unknown");
    assert_eq!(format_mtime(1), "1970-01-01");
    assert_eq!(format_mtime(86_399), "1970-01-01");
    assert_eq!(format_mtime(86_400), "1970-01-02");
    assert_eq!(format_mtime(951_782_400), "2000-02-29");
    assert_eq!(format_mtime(1_709_164_800), "2024-02-29");
    assert_eq!(format_mtime(1_735_689_599), "2024-12-31");
    assert_eq!(format_mtime(1_735_689_600), "2025-01-01");
}

#[test]
fn day_numbers_name_one_date_each() {
    assert_eq!(civil_from_days(0), (1970, 1, 1));
    assert_eq!(civil_from_days(59), (1970, 3, 1));
    assert_eq!(civil_from_days(11_016), (2000, 2, 29));
    assert_eq!(civil_from_days(11_017), (2000, 3, 1));
    assert_eq!(civil_from_days(146_097), (2370, 1, 1));
    assert_eq!(civil_from_days(47_540), (2100, 2, 28));
    assert_eq!(civil_from_days(47_541), (2100, 3, 1));
    let (year, month, day) = civil_from_days(u64::MAX / 86_400);
    assert!(year > 584_000_000_000 && (1..=12).contains(&month) && (1..=31).contains(&day));
}

#[test]
fn a_song_label_drops_the_artist_under_an_artist_heading_and_shows_the_sorted_detail() {
    let metadata = Metadata {
        title: Some("Roygbiv".to_string()),
        artist: Some("Boards of Canada".to_string()),
        duration_secs: 151,
        ..Metadata::default()
    };
    let song = Song::from_probed("music/roygbiv.flac".to_string(), 86_400, metadata);

    let label = label_for(&song, Some(Category::Artist), Sort::Title);
    assert_eq!(label.title, "Roygbiv");
    assert_eq!(label.artist, None);
    assert_eq!(label.detail, None);

    let label = label_for(&song, None, Sort::Duration);
    assert_eq!(label.artist, Some("Boards of Canada"));
    assert_eq!(label.detail.as_deref(), Some("02:31"));

    let label = label_for(&song, Some(Category::Path), Sort::DateModified);
    assert_eq!(label.artist, Some("Boards of Canada"));
    assert_eq!(label.detail.as_deref(), Some("1970-01-02"));
}

// ----------------------------------------------------------------------
// Scrolling labels.

#[test]
fn marquee_scroll_offset_holds_still_through_the_pause_phase() {
    let loop_len = 63;

    assert_eq!(marquee_scroll_offset(0, loop_len), 0);
    assert_eq!(marquee_scroll_offset(2_000, loop_len), 0);
    assert_eq!(marquee_scroll_offset(4_499, loop_len), 0);
}

#[test]
fn marquee_scroll_offset_advances_one_step_per_interval_after_the_pause() {
    let loop_len = 63;

    assert_eq!(marquee_scroll_offset(4_500, loop_len), 0);
    assert_eq!(marquee_scroll_offset(4_649, loop_len), 0);
    assert_eq!(marquee_scroll_offset(4_650, loop_len), 1);
    assert_eq!(marquee_scroll_offset(4_800, loop_len), 2);
}

#[test]
fn marquee_scroll_offset_wraps_around_at_the_end_of_one_cycle() {
    let loop_len = 63;
    let scroll_end_ms = 4_500 + 63 * 150;

    assert_eq!(marquee_scroll_offset(scroll_end_ms - 150, loop_len), 62);
    assert_eq!(
        marquee_scroll_offset(scroll_end_ms, loop_len),
        0,
        "a completed cycle must restart at the pause, not run past the last character"
    );
    assert_eq!(marquee_scroll_offset(scroll_end_ms + 5_000, loop_len), 3);
}

#[test]
fn marquee_scroll_offset_survives_a_large_elapsed_time() {
    let loop_len = 63;
    let cycles = (63 * 150 * 10_000) / (4_500 + 63 * 150);
    let late_ms = cycles * (4_500 + 63 * 150) + 4_650;

    assert_eq!(
        marquee_scroll_offset(late_ms, loop_len),
        1,
        "elapsed time far beyond one cycle must mod back into the cycle"
    );
}

#[test]
fn an_empty_label_never_scrolls() {
    assert_eq!(marquee_scroll_offset(0, 0), 0);
    assert_eq!(marquee_scroll_offset(123_456, 0), 0);
}

#[test]
fn ctrl_chords_on_plain_letter_keys_do_nothing_instead_of_firing_the_plain_action() {
    let ctrl = KeyModifiers { control: true, ..no_mods() };
    for c in ['s', 'a', 'n'] {
        assert_eq!(keymap::lookup(KeyCode::Char(c), ctrl), None, "Ctrl+letter must not trigger the unmodified binding");
    }
}

#[test]
fn ctrl_v_still_toggles_visual_selection_under_strict_modifier_matching() {
    let ctrl = KeyModifiers { control: true, ..no_mods() };
    assert_eq!(keymap::lookup(KeyCode::Char('v'), ctrl), Some(Action::ToggleVisualSelect), "a bound Ctrl-chord must keep working");
}

#[test]
fn shift_is_ignored_so_uppercase_letter_bindings_keep_working() {
    let shift = KeyModifiers { shift: true, ..no_mods() };
    assert_eq!(keymap::lookup(KeyCode::Char('G'), shift), Some(Action::JumpBottom), "Shift+G must still jump to the bottom");
}
