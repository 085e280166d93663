use lyre::fuzzy::FuzzyQuery;
use lyre::layout::Row;
use lyre::listing::{
    build_relevance_rows, build_rows, count_matching_artist, fuzzy_filter_and_sort, group_label,
    ids_with_artist_key,
};
use lyre::row_cache::{Category, Sort};
use lyre::song::{Metadata, Song};

const ROOT: &str = "/music";

fn song(path: &str, title: &str, artist: &str, nanos: u32, modified: u64) -> Song {
    let metadata = Metadata {
        title: Some(title.to_string()),
        artist: Some(artist.to_string()),
        duration_nanos: nanos,
        ..Metadata::default()
    };
    Song::from_probed(path.to_string(), modified, metadata)
}

/// Three artists, each in a directory of its own, with a long and a short
/// song apiece.
fn library() -> Vec<Song> {
    let mut songs = Vec::new();
    let mut modified = 1_000;
    for (artist, tracks) in [
        ("Alpha", [("Anchor", 4000u32), ("Azure", 400u32)]),
        ("Beta", [("Beacon", 4000u32), ("Bright", 400u32)]),
        ("Gamma", [("Glimmer", 4000u32), ("Grove", 400u32)]),
    ] {
        for (i, (title, samples)) in tracks.iter().enumerate() {
            let path = format!("{ROOT}/{artist}/{i}-{title}.wav");
            songs.push(song(&path, title, artist, samples * 1000, modified));
            modified += 10;
        }
    }
    songs
}

fn rows_of(songs: &[Song], category: Category, sort: Sort) -> Vec<Row> {
    let refs: Vec<&Song> = songs.iter().collect();
    build_rows(&refs, category, sort, ROOT)
}

fn header_names(rows: &[Row]) -> Vec<String> {
    rows.iter()
        .filter_map(|r| match r {
            Row::Header(name) => Some(name.trim().to_string()),
            Row::Song(_, _) => None,
        })
        .collect()
}

fn titles(songs: &[Song], rows: &[Row]) -> Vec<String> {
    rows.iter()
        .filter_map(|r| match r {
            Row::Song(id, _) => songs.iter().find(|s| s.id() == *id).map(|s| s.title().to_string()),
            Row::Header(_) => None,
        })
        .collect()
}

#[test]
fn category_artist_creates_one_header_per_artist() {
    let songs = library();
    let rows = rows_of(&songs, Category::Artist, Sort::Title);
    assert_eq!(header_names(&rows), vec!["Alpha", "Beta", "Gamma"]);
}

#[test]
fn category_path_creates_one_header_per_directory() {
    let songs = library();
    let rows = rows_of(&songs, Category::Path, Sort::Title);
    assert_eq!(header_names(&rows), vec!["Alpha", "Beta", "Gamma"]);
}

#[test]
fn category_and_sort_apply_independently() {
    let songs = library();
    let rows: Vec<String> = rows_of(&songs, Category::Artist, Sort::Duration)
        .iter()
        .map(|r| match r {
            Row::Header(name) => format!("#{}", name.trim()),
            Row::Song(id, _) => songs.iter().find(|s| s.id() == *id).unwrap().title().to_string(),
        })
        .collect();

    assert_eq!(
        rows,
        vec!["#Alpha", "Azure", "Anchor", "#Beta", "Bright", "Beacon", "#Gamma", "Grove", "Glimmer"],
        "grouping must stay by artist while the shorter (lower duration) song leads within each group"
    );
}

#[test]
fn switching_category_back_to_none_removes_all_headers() {
    let songs = library();
    assert!(!header_names(&rows_of(&songs, Category::Artist, Sort::Title)).is_empty());
    assert!(header_names(&rows_of(&songs, Category::Ungrouped, Sort::Title)).is_empty());
}

#[test]
fn the_header_indent_and_the_song_depth_use_the_same_unit() {
    let songs: Vec<Song> = (0..10)
        .map(|i| song(&format!("{ROOT}/Deep/Nested/{i}-Track{i}.wav"), &format!("Track{i}"), "Solo", 0, 0))
        .collect();
    let rows = rows_of(&songs, Category::Path, Sort::Title);
    let headers: Vec<&str> = rows
        .iter()
        .filter_map(|r| match r {
            Row::Header(text) => Some(text.as_str()),
            Row::Song(_, _) => None,
        })
        .collect();
    assert_eq!(headers, vec!["Deep", "  Nested"]);

    let depths: Vec<usize> = rows
        .iter()
        .filter_map(|r| match r {
            Row::Song(_, depth) => Some(*depth),
            Row::Header(_) => None,
        })
        .collect();
    assert!(
        depths.iter().all(|&depth| depth == headers.len()),
        "a song must sit one unit deeper than its last header"
    );
}

#[test]
fn titles_sort_without_regard_to_case() {
    let songs = vec![
        song("/music/b.wav", "beta", "X", 0, 0),
        song("/music/a.wav", "Alpha", "X", 0, 0),
        song("/music/c.wav", "Charlie", "X", 0, 0),
    ];
    let rows = rows_of(&songs, Category::Ungrouped, Sort::Title);
    assert_eq!(titles(&songs, &rows), vec!["Alpha", "beta", "Charlie"]);
    assert!(rows.iter().all(|r| matches!(r, Row::Song(_, 0))));
}

#[test]
fn a_shorter_title_comes_before_the_titles_it_begins() {
    let songs = vec![
        song("/music/1.wav", "Blue Monday", "X", 0, 0),
        song("/music/2.wav", "Blue", "X", 0, 0),
    ];
    let rows = rows_of(&songs, Category::Ungrouped, Sort::Title);
    assert_eq!(titles(&songs, &rows), vec!["Blue", "Blue Monday"]);
}

#[test]
fn newest_songs_come_first_when_sorted_by_date() {
    let songs = library();
    let rows = rows_of(&songs, Category::Ungrouped, Sort::DateModified);
    assert_eq!(
        titles(&songs, &rows),
        vec!["Grove", "Glimmer", "Bright", "Beacon", "Azure", "Anchor"]
    );
}

#[test]
fn paths_sort_component_by_component() {
    let songs = vec![
        song("/music/a-b/x.wav", "One", "X", 0, 0),
        song("/music/a/y.wav", "Two", "X", 0, 0),
        song("/music/a/b/z.wav", "Three", "X", 0, 0),
    ];
    let rows = rows_of(&songs, Category::Ungrouped, Sort::Path);
    assert_eq!(titles(&songs, &rows), vec!["Three", "Two", "One"]);
}

#[test]
fn songs_in_the_root_come_before_every_directory() {
    let songs = vec![
        song("/music/Alpha/a.wav", "In Alpha", "X", 0, 0),
        song("/music/loose.wav", "Loose", "X", 0, 0),
        song("/music/Alpha/Deeper/b.wav", "Deeper", "X", 0, 0),
    ];
    let rows = rows_of(&songs, Category::Path, Sort::Title);
    let shape: Vec<String> = rows
        .iter()
        .map(|r| match r {
            Row::Header(name) => format!("#{name}"),
            Row::Song(id, depth) => {
                format!("{}@{depth}", songs.iter().find(|s| s.id() == *id).unwrap().title())
            }
        })
        .collect();
    assert_eq!(shape, vec!["Loose@0", "#Alpha", "In Alpha@1", "#  Deeper", "Deeper@2"]);
}

#[test]
fn group_labels_name_the_artist_or_the_innermost_directory() {
    let songs = library();
    assert_eq!(group_label(&songs[0], Category::Ungrouped, ROOT), None);
    assert_eq!(group_label(&songs[0], Category::Artist, ROOT), Some("Alpha".to_string()));
    assert_eq!(group_label(&songs[0], Category::Path, ROOT), Some("Alpha".to_string()));
    let nested = song("/music/Deep/Nested/t.wav", "T", "X", 0, 0);
    assert_eq!(group_label(&nested, Category::Path, ROOT), Some("Nested".to_string()));
    let loose = song("/music/t.wav", "T", "X", 0, 0);
    assert_eq!(group_label(&loose, Category::Path, ROOT), None);
}

#[test]
fn search_results_keep_only_matches_best_first() {
    let songs = library();
    let refs: Vec<&Song> = songs.iter().collect();

    let found = fuzzy_filter_and_sort(&refs, &FuzzyQuery::new("azure"));
    let names: Vec<&str> = found.iter().map(|s| s.title()).collect();
    assert_eq!(names, vec!["Azure"]);

    let query = FuzzyQuery::new("b");
    let found = fuzzy_filter_and_sort(&refs, &query);
    let scores: Vec<u32> = found.iter().map(|s| s.fuzzy_score(&query).unwrap()).collect();
    assert!(!found.is_empty());
    assert!(scores.windows(2).all(|w| w[0] >= w[1]), "best match first: {scores:?}");
    let matching = songs.iter().filter(|s| s.fuzzy_score(&query).is_some()).count();
    assert_eq!(found.len(), matching);

    let rows = build_relevance_rows(&found);
    assert_eq!(rows.len(), found.len());
    assert!(rows.iter().zip(&found).all(|(r, s)| *r == Row::Song(s.id(), 0)));
}

#[test]
fn songs_by_the_same_artist_are_found_except_the_one_being_edited() {
    let songs = vec![
        song("/music/1.wav", "One", "Yoasobi", 0, 0),
        song("/music/2.wav", "Two", "YOASOBI", 0, 0),
        song("/music/3.wav", "Three", "Other", 0, 0),
        song("/music/4.wav", "Four", "yoasobi", 0, 0),
    ];
    let refs: Vec<&Song> = songs.iter().collect();
    let found = ids_with_artist_key(&refs, "yoasobi", songs[0].id());
    assert_eq!(found, vec![songs[1].id(), songs[3].id()]);
    assert_eq!(count_matching_artist(&refs, "yoasobi", songs[0].id()), 2);
    assert_eq!(count_matching_artist(&refs, "nobody", songs[0].id()), 0);
}
