//! Naming of downloaded songs, and what a video's metadata tells.

use std::time::Duration;

use vstd::prelude::*;

use crate::keymap::{modal_lookup, modal_lookup_spec, KeyCode, KeyModifiers, ModalKey};
use crate::picker::{cycle_spec, field_position, lemma_field_position, lemma_first_position};
use crate::song::{component_views, path_components, path_components_spec};
use crate::library::InsertOutcome;
use crate::metadata_form::{romanized_offer, romanized_offer_spec};
use crate::song::{MetadataEdits, SongId};
use crate::strings::StatusKind;
use crate::text::{
    char_is_alphanumeric, char_is_whitespace, char_uppercase, chars_equal, chars_of, is_alphanumeric,
    is_whitespace, string_from_chars, trim, trim_seq, uppercase_of,
};

verus! {

/// What a video's metadata tells about it.
pub struct VideoInfo {
    pub title: String,
    pub uploader: Option<String>,
    pub duration: Option<Duration>,
}

/// Whether `c` separates words in a file name: white space or a hyphen.
pub open spec fn is_name_separator(c: char) -> bool {
    char_is_whitespace(c) || c == '-'
}

/// The letters and digits of `s`, in order.
pub open spec fn alphanumerics(s: Seq<char>) -> Seq<char>
    decreases s.len(),
{
    if s.len() == 0 {
        Seq::empty()
    } else {
        alphanumerics(s.drop_last()) + if char_is_alphanumeric(s.last()) {
            seq![s.last()]
        } else {
            Seq::empty()
        }
    }
}

/// The file-name form of `s`, read from the front, where `at_start` tells
/// whether a word starts at the first character: separators vanish, the
/// first character of each word is upper-cased, and only letters and
/// digits are kept.
pub open spec fn name_chunk_from(s: Seq<char>, at_start: bool) -> Seq<char>
    decreases s.len(),
{
    if s.len() == 0 {
        Seq::empty()
    } else if is_name_separator(s[0]) {
        name_chunk_from(s.drop_first(), true)
    } else if at_start {
        alphanumerics(char_uppercase(s[0])) + name_chunk_from(s.drop_first(), false)
    } else {
        alphanumerics(seq![s[0]]) + name_chunk_from(s.drop_first(), false)
    }
}

/// The file-name form of a field: its words, split at white space and
/// hyphens, each capitalised and stripped of everything but letters and
/// digits, then joined.
pub open spec fn name_chunk(s: Seq<char>) -> Seq<char> {
    name_chunk_from(s, true)
}

/// The letters and digits of `chars`.
fn keep_alphanumerics(chars: &Vec<char>) -> (r: Vec<char>)
    ensures
        r@ == alphanumerics(chars@),
{
    let mut out: Vec<char> = Vec::new();
    let mut i: usize = 0;
    while i < chars.len()
        invariant
            i <= chars@.len(),
            out@ == alphanumerics(chars@.take(i as int)),
        decreases chars@.len() - i,
    {
        if is_alphanumeric(chars[i]) {
            out.push(chars[i]);
        }
        i = i + 1;
        assert(chars@.take(i as int).drop_last() =~= chars@.take(i - 1));
    }
    assert(chars@.take(chars@.len() as int) =~= chars@);
    out
}

/// Appends `more` to `out`.
fn append_chars(out: &mut Vec<char>, more: &Vec<char>)
    ensures
        final(out)@ == old(out)@ + more@,
{
    let mut i: usize = 0;
    while i < more.len()
        invariant
            i <= more@.len(),
            out@ == old(out)@ + more@.take(i as int),
        decreases more@.len() - i,
    {
        out.push(more[i]);
        i = i + 1;
        assert(out@ =~= old(out)@ + more@.take(i as int));
    }
    assert(more@.take(more@.len() as int) =~= more@);
}

/// One word made fit for a file name: its first character upper-cased,
/// then only its letters and digits.
pub fn capitalize_and_strip(word: &str) -> (r: String)
    ensures
        r@ == if word@.len() == 0 {
            Seq::empty()
        } else {
            alphanumerics(char_uppercase(word@[0]) + word@.drop_first())
        },
{
    let chars = chars_of(word);
    if chars.len() == 0 {
        return string_from_chars(&Vec::new());
    }
    let mut capitalized = uppercase_of(chars[0]);
    let mut rest: Vec<char> = Vec::new();
    let mut i: usize = 1;
    while i < chars.len()
        invariant
            1 <= i <= chars@.len(),
            rest@ == chars@.subrange(1, i as int),
        decreases chars@.len() - i,
    {
        rest.push(chars[i]);
        i = i + 1;
        assert(rest@ =~= chars@.subrange(1, i as int));
    }
    assert(rest@ =~= word@.drop_first());
    append_chars(&mut capitalized, &rest);
    let kept = keep_alphanumerics(&capitalized);
    string_from_chars(&kept)
}

/// The file-name form of a field (see [`name_chunk`]).
pub fn generate_name_chunk(field: &str) -> (r: String)
    ensures
        r@ == name_chunk(field@),
{
    let chars = chars_of(field);
    let mut out: Vec<char> = Vec::new();
    let mut at_start = true;
    let mut i: usize = 0;
    assert(chars@.skip(0) =~= chars@);
    while i < chars.len()
        invariant
            i <= chars@.len(),
            chars@ == field@,
            out@ + name_chunk_from(chars@.skip(i as int), at_start) == name_chunk(field@),
        decreases chars@.len() - i,
    {
        let c = chars[i];
        let ghost rest = chars@.skip(i as int);
        assert(rest[0] == c);
        assert(rest.drop_first() =~= chars@.skip(i + 1));
        let ghost before = out@;
        if is_whitespace(c) || c == '-' {
            at_start = true;
        } else if at_start {
            let upper = uppercase_of(c);
            let kept = keep_alphanumerics(&upper);
            append_chars(&mut out, &kept);
            at_start = false;
            assert(before + (kept@ + name_chunk_from(chars@.skip(i + 1), false)) =~= out@
                + name_chunk_from(chars@.skip(i + 1), false));
        } else {
            let single = vec![c];
            let kept = keep_alphanumerics(&single);
            assert(single@ =~= seq![c]);
            append_chars(&mut out, &kept);
            assert(before + (kept@ + name_chunk_from(chars@.skip(i + 1), false)) =~= out@
                + name_chunk_from(chars@.skip(i + 1), false));
        }
        i = i + 1;
    }
    assert(chars@.skip(i as int).len() == 0);
    assert(out@ + Seq::<char>::empty() =~= out@);
    string_from_chars(&out)
}

/// The file name for a downloaded song: the artist's and the title's
/// file-name forms, joined by a hyphen, with the `.mp3` extension.
pub fn generate_file_name(artist: &str, title: &str) -> (r: String)
    ensures
        r@ == name_chunk(artist@) + "-"@ + name_chunk(title@) + ".mp3"@,
{
    let out = generate_name_chunk(artist);
    let out = out.concat("-");
    let title_chunk = generate_name_chunk(title);
    let out = out.concat(title_chunk.as_str());
    out.concat(".mp3")
}

// ---------------------------------------------------------------------------
// The download form
// ---------------------------------------------------------------------------

/// A field of the download form.
#[derive(Debug, Clone, Copy, PartialEq, Eq, Structural)]
pub enum YoutubeField {
    Title,
    Artist,
    Album,
    TitleSort,
    ArtistSort,
    Directory,
    FileName,
}

/// What is known of the video's metadata.
#[derive(Debug, Clone, PartialEq, Eq)]
pub enum FetchStatus {
    Pending,
    Ready { title: String, uploader: Option<String> },
}

/// Whether the audio has been downloaded yet, and where to.
#[derive(Debug, Clone, PartialEq, Eq)]
pub enum DownloadStatus {
    Pending,
    Ready(String),
}

/// The download form: the video's address, the tags and place to give
/// the file, which field has focus, the error shown, and how far fetching
/// and downloading have come.
#[derive(Debug, Clone)]
pub struct YoutubeFieldsModal {
    pub url: String,
    pub title: String,
    pub artist: String,
    pub album: String,
    pub title_sort: String,
    pub artist_sort: String,
    pub directory: String,
    pub file_name: String,
    pub file_name_overridden: bool,
    pub focused: YoutubeField,
    pub error: Option<String>,
    pub fetch_status: FetchStatus,
    pub download_status: DownloadStatus,
}

/// `r` is the form for downloading `url`, as [`start_youtube_fields`]
/// makes it.
pub open spec fn started(r: YoutubeFieldsModal, url: Seq<char>, restore: Option<YoutubeFieldsModal>) -> bool {
    &&& r.url@ == url
    &&& r.focused == YoutubeField::Title
    &&& r.error is None
    &&& r.fetch_status is Pending
    &&& r.download_status is Pending
    &&& match restore {
        Some(old) => {
            &&& r.title == old.title
            &&& r.artist == old.artist
            &&& r.album == old.album
            &&& r.title_sort == old.title_sort
            &&& r.artist_sort == old.artist_sort
            &&& r.directory == old.directory
            &&& r.file_name == old.file_name
            &&& r.file_name_overridden == old.file_name_overridden
        },
        None => {
            &&& r.title@.len() == 0
            &&& r.artist@.len() == 0
            &&& r.album@.len() == 0
            &&& r.title_sort@.len() == 0
            &&& r.artist_sort@.len() == 0
            &&& r.directory@ == "./"@
            &&& r.file_name@.len() == 0
            &&& !r.file_name_overridden
        },
    }
}

/// The form for downloading `url`: a fresh one, its directory the
/// library's root and every other field empty, or, to retry, the `restore`d
/// form with everything the user typed kept and the address replaced;
/// either way focused on the title, with no error, and nothing fetched or
/// downloaded yet.
pub fn start_youtube_fields(url: String, restore: Option<YoutubeFieldsModal>) -> (r: YoutubeFieldsModal)
    ensures
        started(r, url@, restore),
{
    match restore {
        Some(mut fields) => {
            fields.url = url;
            fields.focused = YoutubeField::Title;
            fields.error = None;
            fields.fetch_status = FetchStatus::Pending;
            fields.download_status = DownloadStatus::Pending;
            fields
        },
        None => YoutubeFieldsModal {
            url,
            title: String::new(),
            artist: String::new(),
            album: String::new(),
            title_sort: String::new(),
            artist_sort: String::new(),
            directory: "./".to_string(),
            file_name: String::new(),
            file_name_overridden: false,
            focused: YoutubeField::Title,
            error: None,
            fetch_status: FetchStatus::Pending,
            download_status: DownloadStatus::Pending,
        },
    }
}

// ---------------------------------------------------------------------------
// Editing the download form, key by key
// ---------------------------------------------------------------------------

/// The fields of `form` that take focus, in tab order: the romanised
/// title and artist only when the title or the artist needs one.
pub open spec fn youtube_visible_spec(form: YoutubeFieldsModal) -> Seq<YoutubeField> {
    seq![YoutubeField::Title] + (if vstd::utf8::is_ascii_chars(form.title@) {
        Seq::empty()
    } else {
        seq![YoutubeField::TitleSort]
    }) + seq![YoutubeField::Artist] + (if vstd::utf8::is_ascii_chars(form.artist@) {
        Seq::empty()
    } else {
        seq![YoutubeField::ArtistSort]
    }) + seq![YoutubeField::Album, YoutubeField::Directory, YoutubeField::FileName]
}

/// The text of field `f` of `form`.
pub open spec fn field_value(form: YoutubeFieldsModal, f: YoutubeField) -> Seq<char> {
    match f {
        YoutubeField::Title => form.title@,
        YoutubeField::Artist => form.artist@,
        YoutubeField::Album => form.album@,
        YoutubeField::TitleSort => form.title_sort@,
        YoutubeField::ArtistSort => form.artist_sort@,
        YoutubeField::Directory => form.directory@,
        YoutubeField::FileName => form.file_name@,
    }
}

/// `after` is `before` with the focused field's text replaced by `v`, the
/// error cleared, and the file name following: typing in it marks it as
/// the user's own; while it is not, editing the title or the artist makes
/// it again the one generated from them ([`generate_file_name`]).
pub open spec fn edited(after: YoutubeFieldsModal, before: YoutubeFieldsModal, v: Seq<char>) -> bool {
    let f = before.focused;
    let set = |g: YoutubeField| if f == g {
        v
    } else {
        field_value(before, g)
    };
    let overridden = before.file_name_overridden || f == YoutubeField::FileName;
    let regenerate = !overridden && (f == YoutubeField::Title || f == YoutubeField::Artist);
    &&& after.url@ == before.url@
    &&& after.title@ == set(YoutubeField::Title)
    &&& after.artist@ == set(YoutubeField::Artist)
    &&& after.album@ == set(YoutubeField::Album)
    &&& after.title_sort@ == set(YoutubeField::TitleSort)
    &&& after.artist_sort@ == set(YoutubeField::ArtistSort)
    &&& after.directory@ == set(YoutubeField::Directory)
    &&& after.file_name@ == if regenerate {
        name_chunk(after.artist@) + "-"@ + name_chunk(after.title@) + ".mp3"@
    } else {
        set(YoutubeField::FileName)
    }
    &&& after.file_name_overridden == overridden
    &&& after.focused == f
    &&& after.error is None
    &&& after.fetch_status == before.fetch_status
    &&& after.download_status == before.download_status
}

/// `after` is `before` with focus on `f` and the error cleared.
pub open spec fn refocused(after: YoutubeFieldsModal, before: YoutubeFieldsModal, f: YoutubeField) -> bool {
    after == YoutubeFieldsModal { focused: f, error: None, ..before }
}

/// What a key in a form comes to: the form after it, the form to submit,
/// or the form closed.
#[derive(Debug)]
pub enum FormFieldOutcome<Form> {
    Updated(Form),
    Confirmed(Form),
    Cancelled,
}

impl YoutubeField {
    /// The fields of `form` that take focus, in tab order.
    pub fn visible(form: &YoutubeFieldsModal) -> (r: Vec<YoutubeField>)
        ensures
            r@ == youtube_visible_spec(*form),
    {
        let mut out: Vec<YoutubeField> = Vec::new();
        out.push(YoutubeField::Title);
        if !form.title.is_ascii() {
            out.push(YoutubeField::TitleSort);
        }
        out.push(YoutubeField::Artist);
        if !form.artist.is_ascii() {
            out.push(YoutubeField::ArtistSort);
        }
        out.push(YoutubeField::Album);
        out.push(YoutubeField::Directory);
        out.push(YoutubeField::FileName);
        proof {
            assert(out@ =~= youtube_visible_spec(*form));
        }
        out
    }
}

fn cycle_youtube_field(fields: &Vec<YoutubeField>, current: YoutubeField, forward: bool) -> (r: YoutubeField)
    ensures
        r == cycle_spec(fields@, current, forward),
{
    let n = fields.len();
    if n == 0 {
        return current;
    }
    let mut i: usize = 0;
    while i < n && !(fields[i] == current)
        invariant
            n == fields@.len(),
            i <= n,
            forall|k: int| 0 <= k < i ==> fields@[k] != current,
        decreases n - i,
    {
        i = i + 1;
    }
    proof {
        lemma_field_position(fields@, current);
        let p = field_position(fields@, current);
        if i < n {
            if p >= 0 {
                if p < i {
                    assert(fields@[p] == current);
                }
                if p > i {
                    lemma_first_position(fields@, current, i as int);
                }
            } else {
                assert(fields@.contains(current));
            }
        } else if p >= 0 {
            assert(fields@[p] == current);
        }
    }
    if i == n {
        fields[0]
    } else if forward {
        fields[(i + 1) % n]
    } else {
        let back = if i == 0 {
            n - 1
        } else {
            i - 1
        };
        proof {
            if i == 0 {
                vstd::arithmetic::div_mod::lemma_small_mod((n - 1) as nat, n as nat);
            } else {
                vstd::arithmetic::div_mod::lemma_mod_add_multiples_vanish((i - 1) as int, n as int);
                vstd::arithmetic::div_mod::lemma_small_mod((i - 1) as nat, n as nat);
            }
        }
        fields[back]
    }
}

fn field_chars(form: &YoutubeFieldsModal) -> (r: Vec<char>)
    ensures
        r@ == field_value(*form, form.focused),
{
    match form.focused {
        YoutubeField::Title => chars_of(form.title.as_str()),
        YoutubeField::Artist => chars_of(form.artist.as_str()),
        YoutubeField::Album => chars_of(form.album.as_str()),
        YoutubeField::TitleSort => chars_of(form.title_sort.as_str()),
        YoutubeField::ArtistSort => chars_of(form.artist_sort.as_str()),
        YoutubeField::Directory => chars_of(form.directory.as_str()),
        YoutubeField::FileName => chars_of(form.file_name.as_str()),
    }
}

fn with_focused_value(form: YoutubeFieldsModal, chars: &Vec<char>) -> (r: YoutubeFieldsModal)
    ensures
        edited(r, form, chars@),
{
    let text = string_from_chars(chars);
    let mut out = form;
    match out.focused {
        YoutubeField::Title => out.title = text,
        YoutubeField::Artist => out.artist = text,
        YoutubeField::Album => out.album = text,
        YoutubeField::TitleSort => out.title_sort = text,
        YoutubeField::ArtistSort => out.artist_sort = text,
        YoutubeField::Directory => out.directory = text,
        YoutubeField::FileName => out.file_name = text,
    }
    out.error = None;
    match out.focused {
        YoutubeField::FileName => out.file_name_overridden = true,
        YoutubeField::Title | YoutubeField::Artist => {
            if !out.file_name_overridden {
                out.file_name = generate_file_name(out.artist.as_str(), out.title.as_str());
            }
        },
        _ => {},
    }
    out
}

/// What a key does in the download form: Tab, Shift-Tab and the arrows
/// move the focus through the visible fields, wrapping, and clear the
/// error; Enter submits the form and Esc closes it; Backspace deletes the
/// last character of the focused field and any other character is typed
/// into it ([`edited`]); other keys change nothing.
pub fn youtube_form_key(form: YoutubeFieldsModal, code: KeyCode, mods: KeyModifiers) -> (r: FormFieldOutcome<
    YoutubeFieldsModal,
>)
    ensures
        match modal_lookup_spec(code, mods) {
            Some(ModalKey::NextField) => r matches FormFieldOutcome::Updated(f) && refocused(
                f,
                form,
                cycle_spec(youtube_visible_spec(form), form.focused, true),
            ),
            Some(ModalKey::PrevField) => r matches FormFieldOutcome::Updated(f) && refocused(
                f,
                form,
                cycle_spec(youtube_visible_spec(form), form.focused, false),
            ),
            Some(ModalKey::Confirm) => r == FormFieldOutcome::Confirmed(form),
            Some(ModalKey::Cancel) => r is Cancelled,
            None => match code {
                KeyCode::Backspace => r matches FormFieldOutcome::Updated(f) && edited(
                    f,
                    form,
                    if field_value(form, form.focused).len() > 0 {
                        field_value(form, form.focused).drop_last()
                    } else {
                        field_value(form, form.focused)
                    },
                ),
                KeyCode::Char(c) => r matches FormFieldOutcome::Updated(f) && edited(
                    f,
                    form,
                    field_value(form, form.focused).push(c),
                ),
                _ => r == FormFieldOutcome::Updated(form),
            },
        },
{
    match modal_lookup(code, mods) {
        Some(ModalKey::NextField) => {
            let visible = YoutubeField::visible(&form);
            let next = cycle_youtube_field(&visible, form.focused, true);
            FormFieldOutcome::Updated(YoutubeFieldsModal { focused: next, error: None, ..form })
        },
        Some(ModalKey::PrevField) => {
            let visible = YoutubeField::visible(&form);
            let prev = cycle_youtube_field(&visible, form.focused, false);
            FormFieldOutcome::Updated(YoutubeFieldsModal { focused: prev, error: None, ..form })
        },
        Some(ModalKey::Confirm) => FormFieldOutcome::Confirmed(form),
        Some(ModalKey::Cancel) => FormFieldOutcome::Cancelled,
        None => match code {
            KeyCode::Backspace => {
                let mut chars = field_chars(&form);
                if chars.len() > 0 {
                    chars.pop();
                }
                FormFieldOutcome::Updated(with_focused_value(form, &chars))
            },
            KeyCode::Char(c) => {
                let mut chars = field_chars(&form);
                chars.push(c);
                FormFieldOutcome::Updated(with_focused_value(form, &chars))
            },
            _ => FormFieldOutcome::Updated(form),
        },
    }
}

/// The download dialog: the video's address being typed (with the error
/// shown and the form to restore on a retry), the form being edited, the
/// question whether to overwrite the file at `existing_path`, or the
/// download under way to `dest_path`. `progress` is the share downloaded
/// as the bit pattern of the percentage the terminal shows; nothing here
/// reads it.
#[derive(Debug)]
pub enum YoutubeModal {
    EnteringUrl { url_input: String, error: Option<String>, restore: Option<YoutubeFieldsModal> },
    EditingFields(YoutubeFieldsModal),
    ResolvingCollision { fields: YoutubeFieldsModal, existing_path: String },
    Downloading { file_name: String, dest_path: String, fields: YoutubeFieldsModal, progress: u64 },
}

/// What a key in the download dialog asks of the program around it.
#[derive(Debug)]
pub enum YoutubeEffect {
    Nothing,
    Status(String, StatusKind),
    /// Start fetching the video at this address, and its audio.
    Fetch(String),
    /// Check where the form says to save the song, and go on with it.
    Submit(YoutubeFieldsModal),
    /// Save the audio already downloaded to `temp_path` at `dest_path`.
    Finalize { fields: YoutubeFieldsModal, temp_path: String, dest_path: String },
}

/// What a key does in the download dialog.
/// - Typing the address: Enter submits the trimmed address, opening the
///   form ([`started`]) and asking for the fetch, or, when it is blank,
///   says "enter a URL first"; Esc closes the dialog; Backspace and
///   characters edit the address; every other key leaves it, and each of
///   these clears the error.
/// - Editing the form: as [`youtube_form_key`] says; a submitted form
///   leaves the dialog to the checks of where to save it.
/// - Asked whether to overwrite: `o` overwrites, saving the audio if it
///   is already downloaded, or else waiting for it; `r` and Esc go back to
///   the file name; other keys change nothing.
/// - Downloading: nothing changes; Esc says the download is in progress.
pub open spec fn youtube_step_ensures(
    modal: YoutubeModal,
    code: KeyCode,
    mods: KeyModifiers,
    r: (Option<YoutubeModal>, YoutubeEffect),
) -> bool {
    match modal {
        YoutubeModal::EnteringUrl { url_input, error, restore } => {
            let typed = url_input@;
            let url = trim_seq(typed);
            let stays = |t: Seq<char>, e: Option<Seq<char>>|
                r.0 matches Some(YoutubeModal::EnteringUrl { url_input: u, error: e2, restore: s }) && u@ == t
                    && s == restore && match (e, e2) {
                    (None, None) => true,
                    (Some(a), Some(b)) => b@ == a,
                    _ => false,
                } && r.1 is Nothing;
            match modal_lookup_spec(code, mods) {
                Some(ModalKey::Confirm) => if url.len() == 0 {
                    stays(typed, Some("enter a URL first"@))
                } else {
                    &&& r.0 matches Some(YoutubeModal::EditingFields(f)) && started(f, url, restore)
                    &&& r.1 matches YoutubeEffect::Fetch(u) && u@ == url
                },
                Some(ModalKey::Cancel) => r.0 is None && r.1 is Nothing,
                Some(_) => stays(typed, None),
                None => match code {
                    KeyCode::Backspace => stays(
                        if typed.len() > 0 {
                            typed.drop_last()
                        } else {
                            typed
                        },
                        None,
                    ),
                    KeyCode::Char(c) => stays(typed.push(c), None),
                    _ => stays(typed, None),
                },
            }
        },
        YoutubeModal::EditingFields(fields) => match modal_lookup_spec(code, mods) {
            Some(ModalKey::Confirm) => r.0 is None && r.1 == YoutubeEffect::Submit(fields),
            Some(ModalKey::Cancel) => r.0 is None && r.1 is Nothing,
            Some(_) => r.0 matches Some(YoutubeModal::EditingFields(f)) && refocused(
                f,
                fields,
                cycle_spec(
                    youtube_visible_spec(fields),
                    fields.focused,
                    modal_lookup_spec(code, mods) == Some(ModalKey::NextField),
                ),
            ) && r.1 is Nothing,
            None => r.1 is Nothing && match code {
                KeyCode::Backspace => r.0 matches Some(YoutubeModal::EditingFields(f)) && edited(
                    f,
                    fields,
                    if field_value(fields, fields.focused).len() > 0 {
                        field_value(fields, fields.focused).drop_last()
                    } else {
                        field_value(fields, fields.focused)
                    },
                ),
                KeyCode::Char(c) => r.0 matches Some(YoutubeModal::EditingFields(f)) && edited(
                    f,
                    fields,
                    field_value(fields, fields.focused).push(c),
                ),
                _ => r.0 == Some(YoutubeModal::EditingFields(fields)),
            },
        },
        YoutubeModal::ResolvingCollision { fields, existing_path } => match code {
            KeyCode::Char('o') => match fields.download_status {
                DownloadStatus::Ready(temp) => r.0 is None && r.1 == YoutubeEffect::Finalize {
                    fields,
                    temp_path: temp,
                    dest_path: existing_path,
                },
                DownloadStatus::Pending => r.0 == Some(
                    YoutubeModal::Downloading {
                        file_name: fields.file_name,
                        dest_path: existing_path,
                        fields,
                        progress: 0,
                    },
                ) && r.1 is Nothing,
            },
            KeyCode::Char('r') | KeyCode::Esc => r.0 == Some(
                YoutubeModal::EditingFields(YoutubeFieldsModal { focused: YoutubeField::FileName, ..fields }),
            ) && r.1 is Nothing,
            _ => r.0 == Some(modal) && r.1 is Nothing,
        },
        YoutubeModal::Downloading { .. } => {
            &&& r.0 == Some(modal)
            &&& if code == KeyCode::Esc {
                r.1 matches YoutubeEffect::Status(t, k) && t@ == "download in progress"@ && k
                    == StatusKind::Info
            } else {
                r.1 is Nothing
            }
        },
    }
}

/// One key in the download dialog: the dialog after it, `None` when it
/// closes, and what the program around it has to do
/// ([`youtube_step_ensures`]).
pub fn youtube_modal_step(modal: YoutubeModal, code: KeyCode, mods: KeyModifiers) -> (r: (
    Option<YoutubeModal>,
    YoutubeEffect,
))
    ensures
        youtube_step_ensures(modal, code, mods, r),
{
    match modal {
        YoutubeModal::EnteringUrl { url_input, error, restore } => {
            let mk = modal_lookup(code, mods);
            match mk {
                Some(ModalKey::Confirm) => {
                    let url_chars = chars_of(trim(url_input.as_str()));
                    if url_chars.len() == 0 {
                        let message = "enter a URL first".to_string();
                        (
                            Some(YoutubeModal::EnteringUrl { url_input, error: Some(message), restore }),
                            YoutubeEffect::Nothing,
                        )
                    } else {
                        let url = string_from_chars(&url_chars);
                        let again = string_from_chars(&url_chars);
                        let fields = start_youtube_fields(url, restore);
                        (Some(YoutubeModal::EditingFields(fields)), YoutubeEffect::Fetch(again))
                    }
                },
                Some(ModalKey::Cancel) => (None, YoutubeEffect::Nothing),
                Some(_) => (Some(YoutubeModal::EnteringUrl { url_input, error: None, restore }), YoutubeEffect::Nothing),
                None => {
                    let mut chars = chars_of(url_input.as_str());
                    match code {
                        KeyCode::Backspace => {
                            if chars.len() > 0 {
                                chars.pop();
                            }
                        },
                        KeyCode::Char(c) => chars.push(c),
                        _ => {},
                    }
                    let typed = string_from_chars(&chars);
                    (Some(YoutubeModal::EnteringUrl { url_input: typed, error: None, restore }), YoutubeEffect::Nothing)
                },
            }
        },
        YoutubeModal::EditingFields(fields) => match youtube_form_key(fields, code, mods) {
            FormFieldOutcome::Updated(f) => (Some(YoutubeModal::EditingFields(f)), YoutubeEffect::Nothing),
            FormFieldOutcome::Confirmed(f) => (None, YoutubeEffect::Submit(f)),
            FormFieldOutcome::Cancelled => (None, YoutubeEffect::Nothing),
        },
        YoutubeModal::ResolvingCollision { fields, existing_path } => match code {
            KeyCode::Char('o') => match &fields.download_status {
                DownloadStatus::Ready(temp) => {
                    let temp_path = temp.clone();
                    (None, YoutubeEffect::Finalize { fields, temp_path, dest_path: existing_path })
                },
                DownloadStatus::Pending => {
                    let file_name = fields.file_name.clone();
                    (
                        Some(YoutubeModal::Downloading { file_name, dest_path: existing_path, fields, progress: 0 }),
                        YoutubeEffect::Nothing,
                    )
                },
            },
            KeyCode::Char('r') | KeyCode::Esc => (
                Some(YoutubeModal::EditingFields(YoutubeFieldsModal { focused: YoutubeField::FileName, ..fields })),
                YoutubeEffect::Nothing,
            ),
            _ => (Some(YoutubeModal::ResolvingCollision { fields, existing_path }), YoutubeEffect::Nothing),
        },
        YoutubeModal::Downloading { file_name, dest_path, fields, progress } => {
            let effect = match code {
                KeyCode::Esc => YoutubeEffect::Status("download in progress".to_string(), StatusKind::Info),
                _ => YoutubeEffect::Nothing,
            };
            (Some(YoutubeModal::Downloading { file_name, dest_path, fields, progress }), effect)
        },
    }
}

/// What the fetching and downloading report: the video's metadata, how
/// far the download has come (the bit pattern of a percentage), the file
/// the audio was downloaded to, or what went wrong.
#[derive(Debug)]
pub enum DownloadEvent {
    InfoReady { title: String, uploader: Option<String> },
    Progress(u64),
    DownloadReady(String),
    Failed(String),
}

/// What a download event asks of the program around the dialog.
#[derive(Debug)]
pub enum EventAction {
    Nothing,
    /// Save the audio downloaded to `temp_path` at `dest_path`, tag it and
    /// add it to the library.
    Finalize { fields: YoutubeFieldsModal, temp_path: String, dest_path: String },
    /// Delete the downloaded file nobody waits for any more.
    Discard(String),
}

/// The form a dialog holds, once the address has been submitted.
pub open spec fn form_of(modal: YoutubeModal) -> Option<YoutubeFieldsModal> {
    match modal {
        YoutubeModal::EditingFields(f) => Some(f),
        YoutubeModal::ResolvingCollision { fields, .. } => Some(fields),
        YoutubeModal::Downloading { fields, .. } => Some(fields),
        YoutubeModal::EnteringUrl { .. } => None,
    }
}

/// `m` is the dialog `modal` with its form replaced by `f`.
pub open spec fn with_form(m: YoutubeModal, modal: YoutubeModal, f: YoutubeFieldsModal) -> bool {
    match modal {
        YoutubeModal::EditingFields(_) => m == YoutubeModal::EditingFields(f),
        YoutubeModal::ResolvingCollision { existing_path, .. } => m == YoutubeModal::ResolvingCollision {
            fields: f,
            existing_path,
        },
        YoutubeModal::Downloading { file_name, dest_path, progress, .. } => m == YoutubeModal::Downloading {
            file_name,
            dest_path,
            fields: f,
            progress,
        },
        YoutubeModal::EnteringUrl { .. } => false,
    }
}

/// What a download event does to the dialog (`None` when it is not open).
/// - The metadata is recorded in the form, if there is one.
/// - Progress is shown while downloading.
/// - A finished download is saved when the download was waited for,
///   remembered in the form while it is still being filled in, and
///   discarded when there is no form.
/// - A failure takes the user back to typing the address, the form's
///   address typed and the form kept for a retry, with the error shown;
///   a failure while the address is typed closes the dialog.
pub open spec fn youtube_event_ensures(
    modal: Option<YoutubeModal>,
    event: DownloadEvent,
    r: (Option<YoutubeModal>, EventAction),
) -> bool {
    match modal {
        None => r.0 is None && match event {
            DownloadEvent::DownloadReady(path) => r.1 == EventAction::Discard(path),
            _ => r.1 is Nothing,
        },
        Some(m) => match (event, form_of(m)) {
            (DownloadEvent::InfoReady { title, uploader }, Some(f)) => r.1 is Nothing && (r.0 matches Some(n)
                && with_form(n, m, YoutubeFieldsModal { fetch_status: FetchStatus::Ready { title, uploader }, ..f })),
            (DownloadEvent::Progress(p), _) => r.1 is Nothing && r.0 == Some(
                match m {
                    YoutubeModal::Downloading { file_name, dest_path, fields, .. } => YoutubeModal::Downloading {
                        file_name,
                        dest_path,
                        fields,
                        progress: p,
                    },
                    _ => m,
                },
            ),
            (DownloadEvent::DownloadReady(path), Some(f)) => match m {
                YoutubeModal::Downloading { dest_path, .. } => r.0 is None && r.1 == EventAction::Finalize {
                    fields: f,
                    temp_path: path,
                    dest_path,
                },
                _ => r.1 is Nothing && (r.0 matches Some(n) && with_form(
                    n,
                    m,
                    YoutubeFieldsModal { download_status: DownloadStatus::Ready(path), ..f },
                )),
            },
            (DownloadEvent::DownloadReady(path), None) => r.0 == Some(m) && r.1 == EventAction::Discard(path),
            (DownloadEvent::Failed(message), Some(f)) => r.1 is Nothing && r.0 == Some(
                YoutubeModal::EnteringUrl { url_input: f.url, error: Some(message), restore: Some(f) },
            ),
            (DownloadEvent::Failed(_), None) => r.0 is None && r.1 is Nothing,
            (DownloadEvent::InfoReady { .. }, None) => r.0 == Some(m) && r.1 is Nothing,
        },
    }
}

/// One download event: the dialog after it and what the program around
/// it has to do ([`youtube_event_ensures`]).
pub fn youtube_event_step(modal: Option<YoutubeModal>, event: DownloadEvent) -> (r: (
    Option<YoutubeModal>,
    EventAction,
))
    ensures
        youtube_event_ensures(modal, event, r),
{
    let m = match modal {
        None => {
            return match event {
                DownloadEvent::DownloadReady(path) => (None, EventAction::Discard(path)),
                _ => (None, EventAction::Nothing),
            };
        },
        Some(m) => m,
    };
    match event {
        DownloadEvent::InfoReady { title, uploader } => match m {
            YoutubeModal::EditingFields(f) => (
                Some(YoutubeModal::EditingFields(
                    YoutubeFieldsModal { fetch_status: FetchStatus::Ready { title, uploader }, ..f },
                )),
                EventAction::Nothing,
            ),
            YoutubeModal::ResolvingCollision { fields, existing_path } => (
                Some(YoutubeModal::ResolvingCollision {
                    fields: YoutubeFieldsModal { fetch_status: FetchStatus::Ready { title, uploader }, ..fields },
                    existing_path,
                }),
                EventAction::Nothing,
            ),
            YoutubeModal::Downloading { file_name, dest_path, fields, progress } => (
                Some(YoutubeModal::Downloading {
                    file_name,
                    dest_path,
                    fields: YoutubeFieldsModal { fetch_status: FetchStatus::Ready { title, uploader }, ..fields },
                    progress,
                }),
                EventAction::Nothing,
            ),
            YoutubeModal::EnteringUrl { url_input, error, restore } => (
                Some(YoutubeModal::EnteringUrl { url_input, error, restore }),
                EventAction::Nothing,
            ),
        },
        DownloadEvent::Progress(p) => match m {
            YoutubeModal::Downloading { file_name, dest_path, fields, .. } => (
                Some(YoutubeModal::Downloading { file_name, dest_path, fields, progress: p }),
                EventAction::Nothing,
            ),
            other => (Some(other), EventAction::Nothing),
        },
        DownloadEvent::DownloadReady(path) => match m {
            YoutubeModal::Downloading { dest_path, fields, .. } => (
                None,
                EventAction::Finalize { fields, temp_path: path, dest_path },
            ),
            YoutubeModal::EditingFields(f) => (
                Some(YoutubeModal::EditingFields(
                    YoutubeFieldsModal { download_status: DownloadStatus::Ready(path), ..f },
                )),
                EventAction::Nothing,
            ),
            YoutubeModal::ResolvingCollision { fields, existing_path } => (
                Some(YoutubeModal::ResolvingCollision {
                    fields: YoutubeFieldsModal { download_status: DownloadStatus::Ready(path), ..fields },
                    existing_path,
                }),
                EventAction::Nothing,
            ),
            other => (Some(other), EventAction::Discard(path)),
        },
        DownloadEvent::Failed(message) => {
            let fields = match m {
                YoutubeModal::EditingFields(f) => f,
                YoutubeModal::ResolvingCollision { fields, .. } => fields,
                YoutubeModal::Downloading { fields, .. } => fields,
                YoutubeModal::EnteringUrl { .. } => return (None, EventAction::Nothing),
            };
            let url_input = fields.url.clone();
            (
                Some(YoutubeModal::EnteringUrl { url_input, error: Some(message), restore: Some(fields) }),
                EventAction::Nothing,
            )
        },
    }
}

/// Until the user types a file name of their own, the file name follows
/// the title and the artist: after a character is typed into or deleted
/// from the title or the artist, it is the one made of the artist and the
/// title as they now stand ([`generate_file_name`]), and it is still not
/// the user's own.
pub proof fn lemma_file_name_follows_title_and_artist(
    fields: YoutubeFieldsModal,
    code: KeyCode,
    mods: KeyModifiers,
    r: (Option<YoutubeModal>, YoutubeEffect),
)
    requires
        fields.focused == YoutubeField::Title || fields.focused == YoutubeField::Artist,
        !fields.file_name_overridden,
        modal_lookup_spec(code, mods) is None,
        code is Char || code is Backspace,
        youtube_step_ensures(YoutubeModal::EditingFields(fields), code, mods, r),
    ensures
        r.0 matches Some(YoutubeModal::EditingFields(g)) && g.file_name@ == name_chunk(g.artist@) + "-"@
            + name_chunk(g.title@) + ".mp3"@ && !g.file_name_overridden,
{
}

/// Once the user has typed a file name of their own, editing the title or
/// the artist leaves it as it is.
pub proof fn lemma_own_file_name_is_kept(
    fields: YoutubeFieldsModal,
    code: KeyCode,
    mods: KeyModifiers,
    r: (Option<YoutubeModal>, YoutubeEffect),
)
    requires
        fields.focused == YoutubeField::Title || fields.focused == YoutubeField::Artist,
        fields.file_name_overridden,
        youtube_step_ensures(YoutubeModal::EditingFields(fields), code, mods, r),
        r.0 is Some,
    ensures
        r.0 matches Some(YoutubeModal::EditingFields(g)) && g.file_name@ == fields.file_name@,
{
}

/// A failure loses nothing typed: after a download or fetch fails, the
/// address shown is the form's, and submitting it again (when it is not
/// blank) opens the form with every field as the user left it.
pub proof fn lemma_retry_keeps_the_form(
    modal: YoutubeModal,
    message: String,
    after_failure: (Option<YoutubeModal>, EventAction),
    code: KeyCode,
    mods: KeyModifiers,
    after_retry: (Option<YoutubeModal>, YoutubeEffect),
)
    requires
        form_of(modal) is Some,
        youtube_event_ensures(Some(modal), DownloadEvent::Failed(message), after_failure),
        after_failure.0 is Some,
        youtube_step_ensures(after_failure.0->Some_0, code, mods, after_retry),
        modal_lookup_spec(code, mods) == Some(ModalKey::Confirm),
        trim_seq(form_of(modal)->Some_0.url@).len() > 0,
    ensures
        ({
            let f = form_of(modal)->Some_0;
            &&& after_failure.0 matches Some(YoutubeModal::EnteringUrl { url_input, error, .. }) && url_input@
                == f.url@ && error == Some(message)
            &&& after_retry.0 matches Some(YoutubeModal::EditingFields(g)) && {
                &&& g.url@ == trim_seq(f.url@)
                &&& g.title == f.title
                &&& g.artist == f.artist
                &&& g.album == f.album
                &&& g.title_sort == f.title_sort
                &&& g.artist_sort == f.artist_sort
                &&& g.directory == f.directory
                &&& g.file_name == f.file_name
                &&& g.file_name_overridden == f.file_name_overridden
            }
            &&& after_retry.1 matches YoutubeEffect::Fetch(u) && u@ == trim_seq(f.url@)
        }),
{
}

// ---------------------------------------------------------------------------
// Finishing a download
// ---------------------------------------------------------------------------

/// What one stage of finishing a download reports: the audio saved at
/// its place or why not, the tags written or why not, the song read back
/// (its id and label) or why not, and what adding it to the library did.
#[derive(Debug)]
pub enum FinalizeEvent {
    Saved(Result<(), String>),
    Tagged(Result<(), String>),
    Loaded(Result<(SongId, String), String>),
    Inserted { outcome: InsertOutcome, label: String, library_queue: bool },
}

/// What finishing a download asks next of the program around it.
#[derive(Debug)]
pub enum FinalizeAction {
    Nothing,
    /// Write these tags to the saved file.
    WriteTags { dest_path: String, edits: MetadataEdits },
    /// Read the saved file back as a song.
    LoadBack { dest_path: String },
    /// Add the song read back to the library.
    Insert,
    /// The song `id` was added: queue it when the queue plays the library,
    /// select it, and offer the romanised artist typed, if any, to the
    /// artist's other songs.
    Added { id: SongId, queue: bool, romanized: Option<String> },
}

/// The tags a download form gives the song: its title, artist, album and
/// romanised title and artist; no genre, track or date.
pub open spec fn form_edits(fields: YoutubeFieldsModal, e: MetadataEdits) -> bool {
    &&& e.title@ == fields.title@
    &&& e.artist@ == fields.artist@
    &&& e.album@ == fields.album@
    &&& e.genre@.len() == 0
    &&& e.track@.len() == 0
    &&& e.date@.len() == 0
    &&& e.title_sort@ == fields.title_sort@
    &&& e.artist_sort@ == fields.artist_sort@
}

/// One stage of finishing the download of `fields`, its audio at
/// `temp_path`, to be kept at `dest_path`:
/// - saved: the tags are written next; a failure is reported and the form
///   comes back, the audio still at `temp_path`, for a retry with another
///   place and no new download;
/// - tagged: the song is read back next; a failure is reported;
/// - read back: the song is added next; a failure is reported;
/// - added: the song is queued when the queue plays the library, and the
///   romanised artist typed ([`romanized_offer_spec`] against nothing) is
///   offered; a song already there is reported instead.
pub open spec fn finalize_ensures(
    fields: YoutubeFieldsModal,
    temp_path: Seq<char>,
    dest_path: Seq<char>,
    event: FinalizeEvent,
    r: (Option<YoutubeModal>, FinalizeAction, Option<(String, StatusKind)>),
) -> bool {
    let status = |t: Seq<char>, k: StatusKind| r.2 matches Some((m, j)) && m@ == t && j == k;
    match event {
        FinalizeEvent::Saved(Ok(())) => r.0 is None && r.2 is None && (r.1 matches FinalizeAction::WriteTags {
            dest_path: d,
            edits: e,
        } && d@ == dest_path && form_edits(fields, e)),
        FinalizeEvent::Saved(Err(e)) => {
            &&& r.0 matches Some(YoutubeModal::EditingFields(f)) && f.download_status matches DownloadStatus::Ready(
                t,
            ) && t@ == temp_path && f == YoutubeFieldsModal { download_status: f.download_status, ..fields }
            &&& r.1 is Nothing
            &&& status("download finished, but failed to save it: "@ + e@, StatusKind::Error)
        },
        FinalizeEvent::Tagged(Ok(())) => r.0 is None && r.2 is None && (r.1 matches FinalizeAction::LoadBack {
            dest_path: d,
        } && d@ == dest_path),
        FinalizeEvent::Tagged(Err(e)) => r.0 is None && r.1 is Nothing && status(
            "downloaded, but failed to tag: "@ + e@,
            StatusKind::Error,
        ),
        FinalizeEvent::Loaded(Ok(_)) => r.0 is None && r.1 is Insert && r.2 is None,
        FinalizeEvent::Loaded(Err(e)) => r.0 is None && r.1 is Nothing && status(
            "downloaded and tagged, but failed to load it back: "@ + e@,
            StatusKind::Error,
        ),
        FinalizeEvent::Inserted { outcome, label, library_queue } => r.0 is None && match outcome {
            InsertOutcome::Inserted(id) => {
                &&& status("downloaded and added: "@ + label@, StatusKind::Success)
                &&& r.1 matches FinalizeAction::Added { id: i, queue, romanized } && i == id && queue
                    == library_queue && match romanized {
                    Some(v) => romanized_offer_spec(fields.artist_sort@, Seq::empty()) == Some(v@),
                    None => romanized_offer_spec(fields.artist_sort@, Seq::empty()) is None,
                }
            },
            InsertOutcome::Collision { .. } => r.1 is Nothing && status(
                "downloaded song already exists in the library"@,
                StatusKind::Info,
            ),
        },
    }
}

fn copy_text(s: &String) -> (r: String)
    ensures
        r@ == s@,
{
    string_from_chars(&chars_of(s.as_str()))
}

/// See [`finalize_ensures`].
pub fn finalize_step(fields: YoutubeFieldsModal, temp_path: String, dest_path: String, event: FinalizeEvent) -> (r: (
    Option<YoutubeModal>,
    FinalizeAction,
    Option<(String, StatusKind)>,
))
    ensures
        finalize_ensures(fields, temp_path@, dest_path@, event, r),
{
    match event {
        FinalizeEvent::Saved(Ok(())) => {
            let edits = MetadataEdits {
                title: copy_text(&fields.title),
                artist: copy_text(&fields.artist),
                album: copy_text(&fields.album),
                genre: String::new(),
                track: String::new(),
                date: String::new(),
                title_sort: copy_text(&fields.title_sort),
                artist_sort: copy_text(&fields.artist_sort),
            };
            (None, FinalizeAction::WriteTags { dest_path, edits }, None)
        },
        FinalizeEvent::Saved(Err(e)) => {
            let message = "download finished, but failed to save it: ".to_string().concat(e.as_str());
            let restored = YoutubeFieldsModal { download_status: DownloadStatus::Ready(temp_path), ..fields };
            (Some(YoutubeModal::EditingFields(restored)), FinalizeAction::Nothing, Some((message, StatusKind::Error)))
        },
        FinalizeEvent::Tagged(Ok(())) => (None, FinalizeAction::LoadBack { dest_path }, None),
        FinalizeEvent::Tagged(Err(e)) => {
            let message = "downloaded, but failed to tag: ".to_string().concat(e.as_str());
            (None, FinalizeAction::Nothing, Some((message, StatusKind::Error)))
        },
        FinalizeEvent::Loaded(Ok(_)) => (None, FinalizeAction::Insert, None),
        FinalizeEvent::Loaded(Err(e)) => {
            let message = "downloaded and tagged, but failed to load it back: ".to_string().concat(e.as_str());
            (None, FinalizeAction::Nothing, Some((message, StatusKind::Error)))
        },
        FinalizeEvent::Inserted { outcome, label, library_queue } => match outcome {
            InsertOutcome::Inserted(id) => {
                let message = "downloaded and added: ".to_string().concat(label.as_str());
                let romanized = romanized_offer(fields.artist_sort.as_str(), "");
                proof {
                    reveal_strlit("");
                }
                (
                    None,
                    FinalizeAction::Added { id, queue: library_queue, romanized },
                    Some((message, StatusKind::Success)),
                )
            },
            InsertOutcome::Collision { .. } => (
                None,
                FinalizeAction::Nothing,
                Some(("downloaded song already exists in the library".to_string(), StatusKind::Info)),
            ),
        },
    }
}

// ---------------------------------------------------------------------------
// Where a download goes
// ---------------------------------------------------------------------------

/// Whether a path starts at the file system's root.
pub open spec fn is_absolute_path(path: Seq<char>) -> bool {
    path_components_spec(path).len() > 0 && path_components_spec(path)[0].0 == 1
}

/// Whether a path climbs up with `..` anywhere.
pub open spec fn climbs_up(path: Seq<char>) -> bool {
    exists|k: int| 0 <= k < path_components_spec(path).len() && (#[trigger] path_components_spec(path)[k]).0 == 3
}

/// Checks the directory typed for a download, below the library's root:
/// the text trimmed, unless it is absolute or climbs up with `..`.
pub fn check_download_directory(subpath: &str) -> (r: Result<String, String>)
    ensures
        ({
            let t = trim_seq(subpath@);
            match r {
                Ok(d) => d@ == t && !is_absolute_path(t) && !climbs_up(t),
                Err(m) => if is_absolute_path(t) {
                    m@ == "directory must be relative to the library root"@
                } else {
                    climbs_up(t) && m@ == "directory can't contain '..'"@
                },
            }
        }),
{
    let trimmed = trim(subpath);
    let comps = path_components(trimmed);
    let ghost views = component_views(comps@);
    assert(views.len() == comps@.len());
    if comps.len() > 0 && comps[0].0 == 1 {
        assert(views[0].0 == comps@[0].0);
        return Err("directory must be relative to the library root".to_string());
    }
    let mut k: usize = 0;
    while k < comps.len()
        invariant
            k <= comps@.len(),
            views == component_views(comps@),
            views == path_components_spec(trimmed@),
            trimmed@ == trim_seq(subpath@),
            !is_absolute_path(trimmed@),
            forall|j: int| 0 <= j < k ==> (#[trigger] views[j]).0 != 3,
        decreases comps@.len() - k,
    {
        assert(views[k as int].0 == comps@[k as int].0);
        if comps[k].0 == 3 {
            assert(path_components_spec(trimmed@)[k as int].0 == 3);
            return Err("directory can't contain '..'".to_string());
        }
        k = k + 1;
    }
    Ok(trimmed.to_string())
}

/// Whether the components of `base` begin those of `path`.
pub open spec fn starts_within(path: Seq<char>, base: Seq<char>) -> bool {
    let (p, b) = (path_components_spec(path), path_components_spec(base));
    b.len() <= p.len() && p.take(b.len() as int) == b
}

/// Whether `path` lies at or below `base`, component by component.
pub fn is_within(path: &str, base: &str) -> (r: bool)
    ensures
        r == starts_within(path@, base@),
{
    let p = path_components(path);
    let b = path_components(base);
    let ghost (pv, bv) = (component_views(p@), component_views(b@));
    if b.len() > p.len() {
        return false;
    }
    let mut k: usize = 0;
    while k < b.len()
        invariant
            k <= b@.len(),
            b@.len() <= p@.len(),
            pv == component_views(p@),
            bv == component_views(b@),
            pv == path_components_spec(path@),
            bv == path_components_spec(base@),
            forall|j: int| 0 <= j < k ==> #[trigger] pv[j] == bv[j],
        decreases b@.len() - k,
    {
        let same = p[k].0 == b[k].0 && chars_equal(
            chars_of(p[k].1.as_str()).as_slice(),
            chars_of(b[k].1.as_str()).as_slice(),
        );
        assert(pv[k as int] == (p@[k as int].0, p@[k as int].1@));
        assert(bv[k as int] == (b@[k as int].0, b@[k as int].1@));
        if !same {
            assert(pv.take(bv.len() as int)[k as int] != bv[k as int]);
            return false;
        }
        k = k + 1;
    }
    assert(pv.take(bv.len() as int) =~= bv);
    true
}

} // verus!
