# lyre

The core of a terminal music player, written in Verus. The library in
`src/` is verified: each public function has a contract that Verus proves.
The program around it in `app/` is plain Rust and is not verified.

- `src/` — the verified library: fuzzy search (`fuzzy`), songs and tag
  edits (`song`), the library of songs by id (`library`), the play queue (`queue`), playlists and their store
  (`playlist`), key bindings and the commands they map to (`keymap`,
  `command`), the order songs are listed in and the rows that come of it
  (`listing`, over the merge sort in `order`), the song menu and its
  playlist choices, key by key (`picker`), the tag editor (`metadata_form`),
  the yes-or-no questions, directory and search input and the number typed
  to jump ahead (`dialogs`, `playback`), the visual selection
  (`selection`), what a directory scan reports and how the playlist store
  is switched (`session`), list layout and navigation (`layout`,
  `row_cache`), dates and clock readings (`calendar`), theme colours
  (`theme`), the download dialog, its form, its events and the steps that
  finish a download (`youtube`), shuffles and random draws (`random`), and
  small text helpers.
- `app/` — a command-line program over the library: directory scan and
  tag I/O with lofty, the playlists file (serde_json), the theme file
  (toml, ratatui colours), terminal keys (crossterm) and the yt-dlp
  download. It scans a directory and prints the listing; the interactive
  terminal interface (its screens and drawing) is not part of this
  project.
- `tests/` — tests of the library on concrete values.
