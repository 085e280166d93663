use lyre::fuzzy;
use lyre::playlist::{
    parse_hex, Mutated, Playlist, PlaylistId, PlaylistStore, SaveOutcome, FLUSH_AFTER_MILLIS,
};
use lyre::queue::Queue;
use lyre::random::{below, random_bytes, shuffle};
use lyre::song::{
    is_supported_audio, needs_romanization, parse_track, prepare_tag_edits, Metadata, MetadataEdits, Song,
    SongId, TagDate, TagEditError,
};
use lyre::youtube::{
    check_download_directory, generate_file_name, is_within, start_youtube_fields, DownloadStatus, FetchStatus, YoutubeField, YoutubeFieldsModal,
};
use lyre::fuzzy::FuzzyQuery;

fn ids(n: usize) -> Vec<SongId> {
    (0..n).map(|i| SongId::compute(&format!("{i}.mp3"))).collect()
}

fn tagged(path: &str, title: &str, artist: &str, album: &str) -> Song {
    let metadata = Metadata {
        title: Some(title.to_string()),
        artist: Some(artist.to_string()),
        album: Some(album.to_string()),
        ..Metadata::default()
    };
    Song::from_cached_with_stat(path.to_string(), 0, 0, metadata)
}

fn store() -> PlaylistStore {
    PlaylistStore::empty("playlists.json".to_string())
}

#[test]
fn is_supported_audio_accepts_known_extensions_case_insensitively() {
    for name in [
        "track.mp3",
        "track.MP3",
        "track.Flac",
        "track.OGG",
        "track.wav",
        "track.opus",
    ] {
        assert!(is_supported_audio(name), "{name} should be recognised as audio");
    }
}

#[test]
fn is_supported_audio_rejects_non_audio_and_malformed_names() {
    for name in [
        "cover.jpg",
        "readme.txt",
        "playlist.m3u",
        "no_extension",
        "track.mp3.bak",
        ".",
    ] {
        assert!(!is_supported_audio(name), "{name} should not be recognised as audio");
    }
}

#[test]
fn playlist_store_create_rename_and_delete_round_trip() {
    let mut store = store();

    let id = store.create("Road Trip");
    assert_eq!(store.get(id).unwrap().name(), "Road Trip");

    assert_eq!(store.rename(id, "Summer Trip"), Mutated::Yes);
    assert_eq!(store.get(id).unwrap().name(), "Summer Trip");

    assert_eq!(store.delete(id), Mutated::Yes);
    assert!(store.get(id).is_none());
}

#[test]
fn playlist_store_prunes_songs_that_are_no_longer_in_the_library() {
    let missing_song = SongId::compute("missing.mp3");
    let id = PlaylistId::new();
    let loaded = vec![Playlist::from_parts(id, "Mix".to_string(), vec![missing_song])];

    let (store, stats) = PlaylistStore::from_loaded("playlists.json".to_string(), loaded, &[]);

    assert_eq!(stats.songs_removed, 1);
    let id = store.ids_sorted_by_name()[0];
    assert!(store.get(id).unwrap().is_empty());
}

#[test]
fn playlist_store_persists_across_a_reload() {
    let song = SongId::compute("song.wav");
    let mut store = PlaylistStore::empty("playlists.json".to_string());
    let id = store.create("Favourites");
    store.add_song(id, song);
    let saved: Vec<Playlist> = store
        .ids_sorted_by_name()
        .iter()
        .map(|pid| store.get(*pid).unwrap().duplicate())
        .collect();

    let (reloaded, _) = PlaylistStore::from_loaded("playlists.json".to_string(), saved, &[song]);
    let playlist = reloaded.get(id).expect("playlist should have been read back");
    assert_eq!(playlist.name(), "Favourites");
    assert_eq!(playlist.songs(), &[song]);
}

#[test]
fn playlist_store_add_song_is_idempotent() {
    let mut store = store();
    let id = store.create("Mix");
    let song = SongId::compute("song.mp3");

    assert_eq!(store.add_song(id, song), Mutated::Yes);
    assert_eq!(
        store.add_song(id, song),
        Mutated::No,
        "adding the same song twice should be a no-op"
    );
    assert_eq!(store.get(id).unwrap().len(), 1);
}

#[test]
fn playlist_store_remove_song_updates_membership() {
    let mut store = store();
    let id = store.create("Mix");
    let song = SongId::compute("song.mp3");
    store.add_song(id, song);

    assert!(store.contains(id, song));
    assert_eq!(store.remove_song(id, song), Mutated::Yes);
    assert!(!store.contains(id, song));
    assert!(store.containing(song).is_empty());
}

#[test]
fn playlist_store_containing_lists_every_playlist_holding_a_song() {
    let mut store = store();
    let song = SongId::compute("song.mp3");

    let a = store.create("A");
    let b = store.create("B");
    store.add_song(a, song);
    store.add_song(b, song);

    let membership = store.containing(song);
    assert_eq!(membership.len(), 2);
    assert!(membership.contains(&a));
    assert!(membership.contains(&b));
}

#[test]
fn playlist_store_ids_sorted_by_name_are_case_insensitive() {
    let mut store = store();
    store.create("banana");
    store.create("Apple");
    store.create("cherry");

    let names: Vec<&str> = store
        .ids_sorted_by_name()
        .iter()
        .map(|&id| store.get(id).unwrap().name())
        .collect();
    assert_eq!(names, vec!["Apple", "banana", "cherry"]);
}

#[test]
fn playlist_store_flush_writes_immediately_regardless_of_the_debounce_window() {
    let mut store = store();
    let mut writes = 0;

    store.create("Mix");
    let outcome = store.flush(|_| {
        writes += 1;
        SaveOutcome::Saved
    });
    assert_eq!(outcome, SaveOutcome::Saved);
    assert_eq!(writes, 1, "flush should write immediately without waiting for the debounce window");
}

#[test]
fn playlist_store_revision_advances_on_mutation_but_not_on_reads() {
    let mut store = store();
    let before = store.revision();

    let id = store.create("Mix");
    assert!(store.revision() > before);

    let after_create = store.revision();
    let _ = store.get(id);
    let _ = store.ids_sorted_by_name();
    assert_eq!(
        store.revision(),
        after_create,
        "read-only calls must not bump the revision"
    );
}

#[test]
fn queue_next_walks_forward_and_wraps_to_the_start() {
    let ids = ids(3);
    let mut queue = Queue::new(ids.clone());

    assert_eq!(queue.next(), Some(ids[0]));
    assert_eq!(queue.next(), Some(ids[1]));
    assert_eq!(queue.next(), Some(ids[2]));
    assert_eq!(queue.next(), Some(ids[0]), "past the end must wrap to the start");
}

#[test]
fn queue_previous_walks_backward_and_wraps_to_the_end() {
    let ids = ids(3);
    let mut queue = Queue::new(ids.clone());

    assert_eq!(
        queue.previous(),
        Some(ids[2]),
        "previous with nothing playing must land on the last song"
    );
    assert_eq!(queue.previous(), Some(ids[1]));
}

#[test]
fn queue_on_an_empty_queue_returns_nothing() {
    let mut queue = Queue::new(Vec::new());
    assert_eq!(queue.next(), None);
    assert_eq!(queue.previous(), None);
    assert_eq!(queue.current_id(), None);
}

#[test]
fn queue_play_id_jumps_to_a_specific_song() {
    let ids = ids(3);
    let mut queue = Queue::new(ids.clone());

    assert_eq!(queue.play_id(ids[2]), Some(ids[2]));
    assert_eq!(queue.current_id(), Some(ids[2]));
}

#[test]
fn queue_play_id_prefers_the_nearest_occurrence_after_the_cursor() {
    let a = SongId::compute("a.mp3");
    let b = SongId::compute("b.mp3");

    let mut queue = Queue::new(vec![a, b, a, b]);
    queue.play_at(1);

    queue.play_id(a);
    assert_eq!(
        queue.current_position(),
        Some(2),
        "should land on the closer occurrence of `a` at index 2"
    );
}

#[test]
fn queue_play_upcoming_jumps_forward_by_n() {
    let ids = ids(5);
    let mut queue = Queue::new(ids.clone());

    assert_eq!(queue.play_upcoming(3), Some(ids[2]));
}

#[test]
fn queue_play_upcoming_zero_does_nothing() {
    let mut queue = Queue::new(ids(3));

    assert_eq!(queue.play_upcoming(0), None);
    assert_eq!(queue.current_id(), None);
}

#[test]
fn queue_priority_songs_play_before_the_regular_queue() {
    let ids = ids(3);
    let priority = SongId::compute("priority.mp3");

    let mut queue = Queue::new(ids.clone());
    queue.queue_next(priority);

    assert_eq!(queue.next(), Some(priority));
    assert_eq!(
        queue.next(),
        Some(ids[0]),
        "after the priority song, playback resumes at the queue's start"
    );
}

#[test]
fn queue_upcoming_lists_priority_songs_then_the_regular_queue() {
    let ids = ids(3);
    let priority = SongId::compute("priority.mp3");

    let mut queue = Queue::new(ids.clone());
    queue.play_at(0);
    queue.queue_next(priority);

    assert_eq!(queue.upcoming(3), vec![priority, ids[1], ids[2]]);
}

#[test]
fn queue_shuffle_preserves_the_currently_playing_song() {
    let ids = ids(20);
    let mut queue = Queue::new(ids.clone());
    queue.play_at(5);
    let current = queue.current_id();

    queue.shuffle();

    assert_eq!(queue.current_id(), current, "shuffling must not change which song is playing");
}

#[test]
fn queue_unshuffle_restores_original_order() {
    let ids = ids(5);
    let mut queue = Queue::new(ids.clone());

    queue.shuffle();
    queue.unshuffle();

    assert_eq!(queue.ordered_ids(), ids);
}

#[test]
fn queue_contains_reflects_membership() {
    let a = SongId::compute("a.mp3");
    let b = SongId::compute("b.mp3");
    let queue = Queue::new(vec![a]);

    assert!(queue.contains(a));
    assert!(!queue.contains(b));
}

#[test]
fn song_falls_back_to_the_file_stem_when_no_title_tag_is_present() {
    let song = Song::from_cached_with_stat("untitled_track.wav".to_string(), 0, 0, Metadata::default());

    assert_eq!(song.title(), "untitled_track");
    assert_eq!(song.artist(), "Unknown Artist");
    assert_eq!(song.album(), "Unknown Album");
}

#[test]
fn song_sort_keys_are_lowercase() {
    let song = tagged("song.wav", "Song Title", "Song Artist", "Song Album");

    assert_eq!(song.sort_title(), "song title");
    assert_eq!(song.sort_artist(), "song artist");
}

#[test]
fn song_fuzzy_term_score_requires_every_term_to_match() {
    let song = tagged("song.wav", "Neon Skyline", "Static Prairie", "Wide Fields");

    assert!(song.fuzzy_score(&FuzzyQuery::new("neon")).is_some());
    assert!(song.fuzzy_score(&FuzzyQuery::new("neon prairie")).is_some());
    assert!(
        song.fuzzy_score(&FuzzyQuery::new("neon zzz")).is_none(),
        "a term that matches nothing should fail the whole query"
    );
}

#[test]
fn song_fuzzy_term_score_expects_an_already_lowercased_term() {
    let song = tagged("song.wav", "Neon Skyline", "Artist", "Album");

    assert!(
        song.fuzzy_score(&FuzzyQuery::new("neon")).is_some(),
        "callers are expected to lowercase the query before matching"
    );
}

#[test]
fn the_ungated_youtube_helpers_do_not_depend_on_the_youtube_feature() {
    assert_eq!(generate_file_name("Boards of Canada", "Roygbiv"), "BoardsOfCanada-Roygbiv.mp3");
}

#[test]
fn generate_file_name_capitalizes_each_word_and_strips_apostrophes() {
    assert_eq!(generate_file_name("John leSmith's", "38 cats"), "JohnLeSmiths-38Cats.mp3");
}

#[test]
fn generate_file_name_splits_words_on_hyphens_but_not_apostrophes() {
    assert_eq!(generate_file_name("Rock-n-Roll", "Don't Stop"), "RockNRoll-DontStop.mp3");
}

#[test]
fn generate_file_name_drops_a_word_made_entirely_of_punctuation() {
    assert_eq!(generate_file_name("!!!", "Title"), "-Title.mp3");
}

#[test]
fn generate_file_name_handles_an_empty_artist_or_title() {
    assert_eq!(generate_file_name("", "Title"), "-Title.mp3");
    assert_eq!(generate_file_name("Artist", ""), "Artist-.mp3");
    assert_eq!(generate_file_name("", ""), "-.mp3");
}

#[test]
fn queue_play_id_finds_a_song_inserted_after_construction() {
    let existing_id = SongId::compute("one.wav");
    let mut queue = Queue::new(vec![existing_id]);

    let downloaded_id = SongId::compute("two.wav");
    queue.insert(downloaded_id);

    assert_eq!(queue.play_id(downloaded_id), Some(downloaded_id));
    assert_eq!(queue.current_id(), Some(downloaded_id));
}

#[test]
fn fuzzy_subsequence_score_matches_characters_in_order_but_not_necessarily_contiguous() {
    assert!(fuzzy::subsequence_score("btl", "beetle").is_some());
    assert!(fuzzy::subsequence_score("tbl", "beetle").is_none());
}

#[test]
fn fuzzy_subsequence_score_of_an_empty_pattern_matches_anything_with_zero_score() {
    assert_eq!(fuzzy::subsequence_score("", "anything"), Some(0));
}

#[test]
fn fuzzy_subsequence_score_rejects_a_pattern_longer_than_the_target() {
    assert_eq!(fuzzy::subsequence_score("longer", "short"), None);
}

#[test]
fn fuzzy_subsequence_score_rewards_a_match_starting_at_a_word_boundary() {
    let boundary = fuzzy::subsequence_score("b", "blue sky").unwrap();
    let midword = fuzzy::subsequence_score("b", "ruby sky").unwrap();

    assert!(boundary > midword);
}

#[test]
fn fuzzy_score_prefers_a_shorter_field_for_the_same_match() {
    let short = fuzzy::subsequence_score("blue", "blue").unwrap_or(0);
    let long = fuzzy::subsequence_score("blue", "blue monday").unwrap_or(0);

    assert!(short > long);
}

#[test]
fn fuzzy_score_prefers_a_compact_alignment() {
    let compact = fuzzy::subsequence_score("ab", "a---ab").unwrap_or(0);
    let scattered = fuzzy::subsequence_score("ab", "a---b").unwrap_or(0);

    assert!(compact > scattered);
}

#[test]
fn fuzzy_score_ignores_accents_and_punctuation() {
    assert!(fuzzy::subsequence_score("cafe", "Caf\u{e9}").is_some());
    assert!(fuzzy::subsequence_score("beyonce", "Beyonc\u{e9}").is_some());
    assert!(fuzzy::subsequence_score("dont", "Don\u{2019}t Stop").is_some());
    assert!(fuzzy::subsequence_score("acdc", "AC/DC").is_some());
}

#[test]
fn fuzzy_score_ranks_a_prefix_above_a_mid_string_match() {
    let prefix = fuzzy::subsequence_score("blue", "blue moon").unwrap_or(0);
    let midway = fuzzy::subsequence_score("blue", "electric blue").unwrap_or(0);

    assert!(prefix > midway);
}

#[test]
fn needs_romanization_is_false_for_any_ascii_text_including_punctuation() {
    assert!(!needs_romanization("Cafe De Flore"));
    assert!(!needs_romanization("Song #7 (Remix) - feat. Someone"));
    assert!(!needs_romanization(""));
}

#[test]
fn needs_romanization_is_true_for_non_ascii_characters() {
    assert!(needs_romanization("夜明け"));
    assert!(needs_romanization("Кино"));
    assert!(needs_romanization("Café"), "accented Latin is still non-ASCII");
    assert!(!needs_romanization("Cafe"), "the unaccented spelling stays false");
}

fn romanized_song() -> Song {
    let metadata = Metadata {
        title: Some("夜明け".to_string()),
        artist: Some("Artist".to_string()),
        album: Some("Album".to_string()),
        title_sort: Some("Yoake".to_string()),
        ..Metadata::default()
    };
    Song::from_cached_with_stat("one.wav".to_string(), 0, 0, metadata)
}

#[test]
fn song_fuzzy_score_finds_a_song_by_its_romanized_title() {
    let song = romanized_song();

    assert!(
        song.fuzzy_score(&FuzzyQuery::new("yoake")).is_some(),
        "the romanized title must be searchable"
    );
    assert!(song.fuzzy_score(&FuzzyQuery::new("zzz")).is_none());
}

#[test]
fn song_sort_title_ignores_the_romanized_field() {
    let song = romanized_song();

    assert_eq!(song.sort_title(), "夜明け", "romanization must not change what the list sorts by");
}

#[test]
fn shuffle_returns_a_permutation_and_never_drops_or_duplicates_an_element() {
    for len in [0usize, 1, 2, 3, 17, 500] {
        let original: Vec<usize> = (0..len).collect();
        let mut shuffled = original.clone();
        shuffle(&mut shuffled);

        assert_eq!(shuffled.len(), original.len(), "shuffle must not change the length of a {len}-element slice");

        let mut sorted = shuffled.clone();
        sorted.sort_unstable();
        assert_eq!(sorted, original, "shuffle of a {len}-element slice must be a permutation");
    }
}

#[test]
fn shuffle_of_a_slice_with_fewer_than_two_elements_leaves_it_untouched() {
    let mut empty: Vec<u8> = Vec::new();
    shuffle(&mut empty);
    assert!(empty.is_empty());

    let mut single = vec![42u8];
    shuffle(&mut single);
    assert_eq!(single, vec![42u8]);
}

#[test]
fn shuffle_actually_reorders_a_large_slice() {
    let original: Vec<usize> = (0..1_000).collect();
    let mut shuffled = original.clone();
    shuffle(&mut shuffled);

    let fixed_points = original.iter().zip(shuffled.iter()).filter(|(a, b)| a == b).count();
    assert!(
        fixed_points < 100,
        "a shuffle of 1000 elements left {fixed_points} in place -- that is not a shuffle"
    );
}

#[test]
fn entropy_below_always_returns_a_value_under_its_bound() {
    for bound in [1u64, 2, 3, 7, 64, 1_000, u64::MAX] {
        for _ in 0..200 {
            let value = below(bound);
            assert!(value < bound.max(1), "below({bound}) returned {value}, which is not under the bound");
        }
    }
}

#[test]
fn entropy_below_covers_every_value_in_a_small_range() {
    let mut seen = [false; 6];
    for _ in 0..2_000 {
        let value = below(6) as usize;
        if let Some(slot) = seen.get_mut(value) {
            *slot = true;
        }
    }
    assert!(seen.iter().all(|hit| *hit), "below(6) never produced some values across 2000 draws: {seen:?}");
}

#[test]
fn a_clean_playlist_store_reports_that_there_was_nothing_to_save() {
    let (mut store, _) = PlaylistStore::from_loaded("playlists.json".to_string(), Vec::new(), &[]);

    assert_eq!(store.flush(|_| SaveOutcome::Saved), SaveOutcome::NothingToSave);
    assert_eq!(store.flush_if_due(|_| SaveOutcome::Saved), SaveOutcome::NothingToSave);
}

#[test]
fn a_dirty_playlist_store_reports_a_successful_save() {
    let (mut store, _) = PlaylistStore::from_loaded("playlists.json".to_string(), Vec::new(), &[]);
    store.create("Favourites");

    assert_eq!(store.flush(|_| SaveOutcome::Saved), SaveOutcome::Saved);
    assert_eq!(store.flush(|_| SaveOutcome::Saved), SaveOutcome::NothingToSave);
}

// ----------------------------------------------------------------------
// Further cases.

#[test]
fn a_failed_save_is_reported_and_keeps_the_change_pending() {
    let mut store = store();
    store.create("Favourites");
    let revision = store.revision();

    let failing = |s: &PlaylistStore| SaveOutcome::Failed(format!("failed to save playlists to {}", s.path()));
    let outcome = store.flush(failing);
    assert_eq!(outcome, SaveOutcome::Failed("failed to save playlists to playlists.json".to_string()));
    assert!(matches!(store.flush(failing), SaveOutcome::Failed(m) if m.contains("playlists.json")));
    assert_eq!(store.revision(), revision);
    assert_eq!(store.flush(|_| SaveOutcome::Saved), SaveOutcome::Saved);
    assert_eq!(store.flush(|_| SaveOutcome::Saved), SaveOutcome::NothingToSave);
}

#[test]
fn flush_if_elapsed_waits_for_the_debounce_window() {
    let mut store = store();
    store.create("Mix");

    assert_eq!(store.flush_if_elapsed(FLUSH_AFTER_MILLIS - 1, |_| SaveOutcome::Saved), SaveOutcome::NothingToSave);
    assert_eq!(store.flush_if_elapsed(FLUSH_AFTER_MILLIS, |_| SaveOutcome::Saved), SaveOutcome::Saved);
    assert_eq!(store.flush_if_elapsed(10_000, |_| SaveOutcome::Saved), SaveOutcome::NothingToSave);
}

#[test]
fn flush_if_due_does_not_save_a_change_made_just_now() {
    let mut store = store();
    store.create("Mix");
    assert_eq!(store.flush_if_due(|_| SaveOutcome::Saved), SaveOutcome::NothingToSave);
}

#[test]
fn the_save_callback_sees_the_playlists_in_listing_order() {
    let mut store = store();
    store.create("b");
    store.create("A");
    let mut names: Vec<String> = Vec::new();
    store.flush(|s| {
        for &id in s.ids_sorted_by_name() {
            names.push(s.get(id).unwrap().name().to_string());
        }
        SaveOutcome::Saved
    });
    assert_eq!(names, vec!["A".to_string(), "b".to_string()]);
}

#[test]
fn a_playlist_id_prints_as_a_version_four_uuid_and_reads_back() {
    let id = PlaylistId::new();
    let text = id.to_string();
    assert_eq!(text.len(), 36);
    let dashes: Vec<usize> = text.char_indices().filter(|(_, c)| *c == '-').map(|(i, _)| i).collect();
    assert_eq!(dashes, vec![8, 13, 18, 23]);
    assert_eq!(text.chars().nth(14), Some('4'), "the version nibble is 4");
    assert!(matches!(text.chars().nth(19), Some('8' | '9' | 'a' | 'b')), "the variant bits are 10");
    assert_eq!(parse_hex(&text), Ok(id));
}

#[test]
fn a_playlist_id_prints_its_bytes_in_lower_case_hex() {
    let id = PlaylistId::from_bytes([
        0x01, 0x23, 0x45, 0x67, 0x89, 0xab, 0xcd, 0xef, 0x10, 0x32, 0x54, 0x76, 0x98, 0xba, 0xdc, 0xfe,
    ]);
    assert_eq!(id.to_string(), "01234567-89ab-cdef-1032-547698badcfe");
}

#[test]
fn parse_hex_ignores_hyphens_and_braces_and_accepts_upper_case() {
    let id = PlaylistId::from_bytes([
        0x01, 0x23, 0x45, 0x67, 0x89, 0xab, 0xcd, 0xef, 0x10, 0x32, 0x54, 0x76, 0x98, 0xba, 0xdc, 0xfe,
    ]);
    assert_eq!(parse_hex("{0123456789ABCDEF1032547698BADCFE}"), Ok(id));
    assert_eq!(parse_hex("0123-4567-89ab-cdef-1032-5476-98ba-dcfe"), Ok(id));
}

#[test]
fn parse_hex_rejects_the_wrong_length_or_a_non_hex_digit() {
    assert_eq!(parse_hex("abc"), Err("invalid playlist id: abc".to_string()));
    assert_eq!(
        parse_hex("0123456789abcdef1032547698badcfg"),
        Err("invalid playlist id: 0123456789abcdef1032547698badcfg".to_string())
    );
    assert!(parse_hex("").is_err());
}

#[test]
fn a_loaded_playlist_with_a_repeated_id_replaces_the_earlier_one() {
    let id = PlaylistId::new();
    let song = SongId::compute("a.mp3");
    let loaded = vec![
        Playlist::from_parts(id, "Old".to_string(), vec![song]),
        Playlist::from_parts(id, "New".to_string(), vec![]),
    ];
    let (store, stats) = PlaylistStore::from_loaded("p.json".to_string(), loaded, &[song]);
    assert_eq!(stats.playlists_loaded, 2);
    assert_eq!(stats.songs_removed, 0);
    assert_eq!(store.len(), 1);
    assert_eq!(store.get(id).unwrap().name(), "New");
    assert!(store.containing(song).is_empty());
}

#[test]
fn renaming_or_deleting_an_unknown_playlist_changes_nothing() {
    let mut store = store();
    let unknown = PlaylistId::new();
    let before = store.revision();
    assert_eq!(store.rename(unknown, "x"), Mutated::No);
    assert_eq!(store.delete(unknown), Mutated::No);
    assert_eq!(store.add_song(unknown, SongId::compute("a.mp3")), Mutated::No);
    assert_eq!(store.remove_song(unknown, SongId::compute("a.mp3")), Mutated::No);
    assert_eq!(store.revision(), before);
}

#[test]
fn renaming_a_playlist_moves_it_in_the_listing() {
    let mut store = store();
    let a = store.create("Alpha");
    let b = store.create("Beta");
    assert_eq!(store.ids_sorted_by_name(), &[a, b]);
    store.rename(a, "zulu");
    assert_eq!(store.ids_sorted_by_name(), &[b, a]);
}

#[test]
fn containing_keeps_the_order_songs_were_added_in() {
    let mut store = store();
    let song = SongId::compute("song.mp3");
    let a = store.create("A");
    let b = store.create("B");
    store.add_song(b, song);
    store.add_song(a, song);
    assert_eq!(store.containing(song), &[b, a]);
    store.rename(a, "A2");
    assert_eq!(store.containing(song), &[a, b], "a rebuilt index follows the listing order");
}

#[test]
fn playlist_fuzzy_score_adds_the_terms_and_fails_on_a_missing_one() {
    let playlist = Playlist::new(PlaylistId::new(), "Road Trip");
    let one = playlist.fuzzy_score(&FuzzyQuery::new("road")).unwrap();
    let two = playlist.fuzzy_score(&FuzzyQuery::new("trip")).unwrap();
    assert_eq!(playlist.fuzzy_score(&FuzzyQuery::new("road trip")), Some(one + two));
    assert_eq!(playlist.fuzzy_score(&FuzzyQuery::new("road zzz")), None);
    assert_eq!(playlist.fuzzy_score(&FuzzyQuery::new("")), Some(0));
}

#[test]
fn playlist_sort_name_is_lower_case() {
    let playlist = Playlist::new(PlaylistId::new(), "Road TRIP");
    assert_eq!(playlist.sort_name(), "road trip");
}

#[test]
fn playlist_remove_all_drops_every_copy() {
    let a = SongId::compute("a.mp3");
    let b = SongId::compute("b.mp3");
    let mut playlist = Playlist::from_parts(PlaylistId::new(), "p".to_string(), vec![a, b, a]);
    playlist.remove_all(a);
    assert_eq!(playlist.songs(), &[b]);
    assert_eq!(playlist.add(b), Mutated::No);
    assert_eq!(playlist.add(a), Mutated::Yes);
    assert_eq!(playlist.songs(), &[b, a]);
}

#[test]
fn previous_right_after_next_returns_to_the_same_song() {
    let ids = ids(4);
    let mut queue = Queue::new(ids.clone());
    queue.play_at(3);
    queue.next();
    assert_eq!(queue.current_position(), Some(0));
    assert_eq!(queue.previous(), Some(ids[3]));
    assert_eq!(queue.current_position(), Some(3));
}

#[test]
fn upcoming_agrees_with_what_next_then_plays() {
    let ids = ids(4);
    let mut queue = Queue::new(ids.clone());
    queue.play_at(2);
    queue.queue_next(ids[1]);
    let preview = queue.upcoming(6);
    let mut played = Vec::new();
    for _ in 0..6 {
        played.push(queue.next().unwrap());
    }
    assert_eq!(preview, played);
}

#[test]
fn upcoming_on_an_idle_queue_starts_where_next_starts() {
    let ids = ids(3);
    let mut queue = Queue::new(ids.clone());
    assert_eq!(queue.upcoming(2), vec![ids[0], ids[1]]);
    queue.queue_next(ids[2]);
    assert_eq!(queue.upcoming(2), vec![ids[2], ids[0]]);

    let mut fresh = Queue::new(ids.clone());
    let preview = fresh.upcoming(1);
    assert_eq!(preview.len(), 1);
    assert_eq!(preview.first().copied(), fresh.play_upcoming(1));
}

#[test]
fn shuffle_keeps_the_same_songs_in_the_order() {
    let ids = ids(30);
    let mut queue = Queue::new(ids.clone());
    queue.shuffle();
    let mut order: Vec<SongId> = (0..queue.len()).map(|p| queue.play_at(p).unwrap()).collect();
    let mut expected = ids.clone();
    order.sort();
    expected.sort();
    assert_eq!(order, expected);
    assert!(queue.has_base(&ids), "the base order is untouched");
}

#[test]
fn random_bytes_fills_the_whole_buffer_over_a_few_draws() {
    let mut any_nonzero = false;
    for _ in 0..4 {
        let mut bytes = [0u8; 16];
        random_bytes(&mut bytes);
        any_nonzero |= bytes.iter().any(|b| *b != 0);
    }
    assert!(any_nonzero);
}

#[test]
fn parse_track_reads_a_number_and_reports_the_rest() {
    assert_eq!(parse_track(" 7 "), Ok(Some(7)));
    assert_eq!(parse_track(""), Ok(None));
    assert_eq!(parse_track("seven"), Err("seven".to_string()));
}

#[test]
fn metadata_edits_start_from_the_current_tags() {
    let metadata = Metadata {
        title: Some("T".to_string()),
        track: Some(3),
        ..Metadata::default()
    };
    let edits = MetadataEdits::from_metadata(&metadata);
    assert_eq!(edits.title, "T");
    assert_eq!(edits.track, "3");
    assert_eq!(edits.artist, "");
}

#[test]
fn song_ids_depend_only_on_the_path() {
    assert_eq!(SongId::compute("a/b.mp3"), SongId::compute("a/b.mp3"));
    assert_ne!(SongId::compute("a/b.mp3"), SongId::compute("a/c.mp3"));
}

fn tagged_edits() -> MetadataEdits {
    MetadataEdits::from_metadata(tagged("one.wav", "One", "Artist", "Album").metadata())
}

#[test]
fn metadata_write_rejects_a_non_numeric_track() {
    let mut edits = tagged_edits();
    edits.track = "not a number".to_string();

    let refused = prepare_tag_edits(&edits);
    assert!(refused.is_err());
    let error = refused.err().unwrap();
    assert_eq!(error, TagEditError::InvalidTrack("not a number".to_string()));
    assert_eq!(error.message(), "invalid track number \"not a number\"");
}

#[test]
fn metadata_write_with_an_empty_field_clears_the_tag() {
    let mut edits = tagged_edits();
    assert_eq!(edits.artist, "Artist");
    edits.artist.clear();
    let prepared = prepare_tag_edits(&edits).ok().unwrap();
    assert_eq!(
        prepared.artist, None,
        "an empty field in the edit form must clear the tag, not leave it untouched"
    );
    assert_eq!(prepared.title.as_deref(), Some("One"));
}

#[test]
fn tag_edits_trim_text_and_read_track_and_date() {
    let mut edits = tagged_edits();
    edits.title = "  Dawn  ".to_string();
    edits.track = " 12 ".to_string();
    edits.date = " 2024-01-31 ".to_string();
    edits.title_sort = "   ".to_string();
    let prepared = prepare_tag_edits(&edits).ok().unwrap();
    assert_eq!(prepared.title.as_deref(), Some("Dawn"));
    assert_eq!(prepared.title_sort, None);
    assert_eq!(prepared.track, Some(12));
    assert_eq!(
        prepared.date,
        Some(TagDate { year: 2024, month: Some(1), day: Some(31), hour: None, minute: None, second: None })
    );

    edits.date = "1999".to_string();
    let prepared = prepare_tag_edits(&edits).ok().unwrap();
    assert_eq!(
        prepared.date,
        Some(TagDate { year: 1999, month: None, day: None, hour: None, minute: None, second: None })
    );

    edits.date = String::new();
    assert_eq!(prepare_tag_edits(&edits).ok().unwrap().date, None);
}

#[test]
fn a_date_that_is_not_a_timestamp_is_refused_after_the_track_is_checked() {
    let mut edits = tagged_edits();
    edits.date = "soon".to_string();
    let error = prepare_tag_edits(&edits).err().unwrap();
    assert_eq!(error, TagEditError::InvalidDate("soon".to_string()));
    assert_eq!(
        error.message(),
        "invalid date \"soon\" (try a year like 2024 or a full date like 2024-01-31)"
    );

    edits.track = "x".to_string();
    assert_eq!(
        prepare_tag_edits(&edits).err().unwrap(),
        TagEditError::InvalidTrack("x".to_string())
    );
}

fn youtube_fields(url: &str, focused: YoutubeField) -> YoutubeFieldsModal {
    YoutubeFieldsModal {
        url: url.to_string(),
        title: String::new(),
        artist: String::new(),
        album: String::new(),
        title_sort: String::new(),
        artist_sort: String::new(),
        directory: String::new(),
        file_name: String::new(),
        file_name_overridden: false,
        focused,
        error: None,
        fetch_status: FetchStatus::Pending,
        download_status: DownloadStatus::Pending,
    }
}

#[test]
fn start_youtube_fields_with_no_restore_defaults_the_directory_to_the_library_root() {
    let fields = start_youtube_fields("https://example.com/watch?v=x".to_string(), None);

    assert_eq!(fields.directory, "./");
    assert!(matches!(fields.fetch_status, FetchStatus::Pending));
    assert!(matches!(fields.download_status, DownloadStatus::Pending));
    assert_eq!(fields.focused, YoutubeField::Title);
}

#[test]
fn start_youtube_fields_with_a_restore_snapshot_keeps_everything_but_the_url_and_resets_status() {
    let mut previous = youtube_fields("https://old-url.example.com", YoutubeField::Album);
    previous.title = "Yoake".to_string();
    previous.artist = "Some Band".to_string();
    previous.directory = "custom/subdir".to_string();
    previous.error = Some("a stale error".to_string());
    previous.fetch_status = FetchStatus::Ready { title: "Old".to_string(), uploader: None };
    previous.download_status = DownloadStatus::Ready("/tmp/old.mp3".to_string());

    let fields = start_youtube_fields("https://new-url.example.com".to_string(), Some(previous));

    assert_eq!(fields.url, "https://new-url.example.com");
    assert_eq!(fields.title, "Yoake");
    assert_eq!(fields.artist, "Some Band");
    assert_eq!(fields.directory, "custom/subdir", "a retried attempt must keep the user's edits");
    assert!(fields.error.is_none(), "the error from the previous attempt must be cleared");
    assert_eq!(fields.focused, YoutubeField::Title, "focus always resets to Title on retry");
    assert!(matches!(fields.fetch_status, FetchStatus::Pending));
    assert!(matches!(fields.download_status, DownloadStatus::Pending));
}

#[test]
fn youtube_modal_rejects_a_directory_that_escapes_the_library_root() {
    let error = check_download_directory("../escape").err().expect("a climbing directory is refused");
    assert!(error.contains(".."));
    assert_eq!(error, "directory can't contain '..'");
}

#[test]
fn download_directories_are_trimmed_and_must_stay_relative() {
    assert_eq!(check_download_directory("  Albums/New  "), Ok("Albums/New".to_string()));
    assert_eq!(check_download_directory("./"), Ok("./".to_string()));
    assert_eq!(
        check_download_directory("/tmp"),
        Err("directory must be relative to the library root".to_string())
    );
    assert_eq!(
        check_download_directory("a/../../b"),
        Err("directory can't contain '..'".to_string())
    );
}

#[test]
fn a_path_is_within_a_base_component_by_component() {
    assert!(is_within("/music/Albums/New", "/music"));
    assert!(is_within("/music", "/music"));
    assert!(!is_within("/music-extra/x", "/music"));
    assert!(!is_within("/", "/music"));
}

#[test]
fn an_id_reads_back_with_braces_or_in_upper_case() {
    let id = PlaylistId::new();
    let text = id.to_string();
    assert_eq!(parse_hex(&format!("{{{text}}}")), Ok(id));
    assert_eq!(parse_hex(&text.to_uppercase()), Ok(id));
    assert!(parse_hex("xyz").is_err());
    assert!(parse_hex(&text[1..]).is_err());
}

#[test]
fn every_unicode_space_separates_words_in_a_file_name() {
    assert_eq!(generate_file_name("boards\u{a0}of\u{3000}canada", "roy\u{2009}g\tbiv"), "BoardsOfCanada-RoyGBiv.mp3");
    assert_eq!(generate_file_name("a\u{200b}b", "c"), "Ab-C.mp3", "a zero-width space is no white space");
}
