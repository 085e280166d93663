//! Songs: identity, tags, display fallbacks, sort keys and search scoring.

use vstd::prelude::*;

use crate::fuzzy::{fuzzy_score, normalized, score, Candidate, FuzzyQuery, Pattern, pattern_views};
use crate::text::{chars_of, lowercase_str, str_lowercase, string_from_chars, trim, trim_seq};
use vstd::string::StringExecFns;

verus! {

/// The hash that identifies the song stored at a path.
pub uninterp spec fn path_hash(path: Seq<char>) -> u64;

/// The extension of a path's file name, if it has one.
pub uninterp spec fn path_extension(path: Seq<char>) -> Option<Seq<char>>;

/// The file name of a path without its extension, if it has a file name.
pub uninterp spec fn path_file_stem(path: Seq<char>) -> Option<Seq<char>>;

/// Trusted: hashes `std::path::Path::new(path)` with `fnv::FnvHasher` (the
/// 64-bit FNV-1a hasher, starting from its default key) through the
/// standard `Hash` impl of `Path`, and returns `Hasher::finish`. The hash is
/// a deterministic function of the path, which the contract names.
#[verifier::external_body]
fn hash_path(path: &str) -> (r: u64)
    ensures
        r == path_hash(path@),
{
    let mut hasher = fnv::FnvHasher::default();
    std::hash::Hash::hash(std::path::Path::new(path), &mut hasher);
    std::hash::Hasher::finish(&hasher)
}

/// Trusted: `Path::extension` of `path`, converted back to a string. The
/// answer (what follows the last `.` of the file name, if any) is named.
#[verifier::external_body]
fn extension_of(path: &str) -> (r: Option<String>)
    ensures
        match r {
            Some(e) => path_extension(path@) == Some(e@),
            None => path_extension(path@) is None,
        },
{
    std::path::Path::new(path).extension().and_then(|e| e.to_str()).map(|e| e.to_string())
}

/// Trusted: `Path::file_stem` of `path`, converted back to a string. The
/// answer is named.
#[verifier::external_body]
fn file_stem_of(path: &str) -> (r: Option<String>)
    ensures
        match r {
            Some(e) => path_file_stem(path@) == Some(e@),
            None => path_file_stem(path@) is None,
        },
{
    std::path::Path::new(path).file_stem().and_then(|e| e.to_str()).map(|e| e.to_string())
}

/// The components of a path, each as its kind (0 for a prefix, 1 for the
/// root, 2 for `.`, 3 for `..`, 4 for a name) and its text.
pub uninterp spec fn path_components_spec(path: Seq<char>) -> Seq<(u8, Seq<char>)>;

/// A path with a leading `root` taken off, if it starts with it.
pub uninterp spec fn path_without_root(path: Seq<char>, root: Seq<char>) -> Option<Seq<char>>;

/// The path of the directory a path lies in, if it has one.
pub uninterp spec fn path_parent(path: Seq<char>) -> Option<Seq<char>>;

/// The kinds and texts of a list of components.
pub open spec fn component_views(v: Seq<(u8, String)>) -> Seq<(u8, Seq<char>)> {
    Seq::new(v.len(), |i: int| (v[i].0, v[i].1@))
}

/// Trusted: `Path::components` of `path`, each component told apart by its
/// variant of `std::path::Component` and written with `as_os_str`. The
/// components are named.
#[verifier::external_body]
pub(crate) fn path_components(path: &str) -> (r: Vec<(u8, String)>)
    ensures
        component_views(r@) == path_components_spec(path@),
{
    let mut out = Vec::new();
    for c in std::path::Path::new(path).components() {
        let kind: u8 = match c {
            std::path::Component::Prefix(_) => 0,
            std::path::Component::RootDir => 1,
            std::path::Component::CurDir => 2,
            std::path::Component::ParentDir => 3,
            std::path::Component::Normal(_) => 4,
        };
        out.push((kind, c.as_os_str().to_string_lossy().into_owned()));
    }
    out
}

/// Trusted: `Path::strip_prefix` of `path` by `root`, back to a string
/// (`None` where `path` does not start with `root`). The answer is named.
#[verifier::external_body]
pub(crate) fn strip_root(path: &str, root: &str) -> (r: Option<String>)
    ensures
        match r {
            Some(p) => path_without_root(path@, root@) == Some(p@),
            None => path_without_root(path@, root@) is None,
        },
{
    std::path::Path::new(path).strip_prefix(root).ok().map(|p| p.to_string_lossy().into_owned())
}

/// Trusted: `Path::parent` of `path`, back to a string. The answer is
/// named.
#[verifier::external_body]
pub(crate) fn parent_of(path: &str) -> (r: Option<String>)
    ensures
        match r {
            Some(p) => path_parent(path@) == Some(p@),
            None => path_parent(path@) is None,
        },
{
    std::path::Path::new(path).parent().map(|p| p.to_string_lossy().into_owned())
}

// ---------------------------------------------------------------------------
// Identity
// ---------------------------------------------------------------------------

/// A song's identity, derived from its path.
#[derive(Debug, Clone, Copy, PartialEq, Eq, Structural, Hash, PartialOrd, Ord)]
pub struct SongId(u64);

impl SongId {
    /// The id of the song stored at `path`.
    pub fn compute(path: &str) -> (r: SongId)
        ensures
            r.raw_value() == path_hash(path@),
    {
        SongId(hash_path(path))
    }

    /// An id from its stored number.
    pub fn from_raw(value: u64) -> (r: SongId)
        ensures
            r.raw_value() == value,
    {
        SongId(value)
    }

    /// The stored number.
    pub fn raw(&self) -> (r: u64)
        ensures
            r == self.raw_value(),
    {
        self.0
    }

    pub closed spec fn raw_value(&self) -> u64 {
        self.0
    }

    /// Identifiers with the same value are the same identifier.
    pub proof fn lemma_raw_injective(a: SongId, b: SongId)
        ensures
            a.raw_value() == b.raw_value() ==> a == b,
    {
    }

}


// ---------------------------------------------------------------------------
// Supported files
// ---------------------------------------------------------------------------

/// The ASCII-lowercased code of a character (other characters unchanged).
pub open spec fn ascii_fold(c: char) -> u32 {
    if 'A' <= c && c <= 'Z' {
        (c as u32 + 32) as u32
    } else {
        c as u32
    }
}

/// Equality ignoring ASCII case, as `str::eq_ignore_ascii_case` defines it.
pub open spec fn eq_ignore_ascii_case(a: Seq<char>, b: Seq<char>) -> bool {
    a.len() == b.len() && forall|i: int| 0 <= i < a.len() ==> ascii_fold(#[trigger] a[i])
        == ascii_fold(b[i])
}

/// The audio file extensions the library loads.
pub open spec fn supported_extensions() -> Seq<Seq<char>> {
    seq![
        "aac"@, "aif"@, "aifc"@, "aiff"@, "ape"@, "flac"@, "m4a"@, "m4b"@, "m4p"@, "mp1"@,
        "mp2"@, "mp3"@, "mp4"@, "mpc"@, "mpp"@, "oga"@, "ogg"@, "opus"@, "spx"@, "wav"@,
        "wave"@, "wv"@,
    ]
}

/// Whether `path` names a file with one of the supported extensions.
pub open spec fn is_supported_audio_spec(path: Seq<char>) -> bool {
    match path_extension(path) {
        Some(ext) => exists|k: int|
            0 <= k < supported_extensions().len() && eq_ignore_ascii_case(
                #[trigger] supported_extensions()[k],
                ext,
            ),
        None => false,
    }
}

fn ascii_fold_exec(c: char) -> (r: u32)
    ensures
        r == ascii_fold(c),
{
    if 'A' <= c && c <= 'Z' {
        c as u32 + 32
    } else {
        c as u32
    }
}

fn eq_ignore_ascii_case_exec(a: &[char], b: &[char]) -> (r: bool)
    ensures
        r == eq_ignore_ascii_case(a@, b@),
{
    if a.len() != b.len() {
        return false;
    }
    let mut i: usize = 0;
    while i < a.len()
        invariant
            a.len() == b.len(),
            0 <= i <= a.len(),
            forall|k: int| 0 <= k < i ==> ascii_fold(#[trigger] a@[k]) == ascii_fold(b@[k]),
        decreases a.len() - i,
    {
        if ascii_fold_exec(a[i]) != ascii_fold_exec(b[i]) {
            return false;
        }
        i = i + 1;
    }
    true
}

fn supported_extension_list() -> (r: Vec<&'static str>)
    ensures
        r@.len() == supported_extensions().len(),
        forall|k: int| 0 <= k < r@.len() ==> (#[trigger] r@[k])@ == supported_extensions()[k],
{
    let r = vec![
        "aac", "aif", "aifc", "aiff", "ape", "flac", "m4a", "m4b", "m4p", "mp1", "mp2", "mp3",
        "mp4", "mpc", "mpp", "oga", "ogg", "opus", "spx", "wav", "wave", "wv",
    ];
    r
}

/// Whether `path` names a supported audio file, judged by its extension
/// and ignoring ASCII case.
pub fn is_supported_audio(path: &str) -> (r: bool)
    ensures
        r == is_supported_audio_spec(path@),
{
    let ext = match extension_of(path) {
        Some(e) => e,
        None => {
            return false;
        },
    };
    let ext_chars = chars_of(ext.as_str());
    let known = supported_extension_list();
    let mut k: usize = 0;
    while k < known.len()
        invariant
            0 <= k <= known@.len(),
            known@.len() == supported_extensions().len(),
            forall|j: int|
                0 <= j < known@.len() ==> (#[trigger] known@[j])@ == supported_extensions()[j],
            path_extension(path@) == Some(ext_chars@),
            forall|j: int|
                0 <= j < k ==> !eq_ignore_ascii_case(
                    #[trigger] supported_extensions()[j],
                    ext_chars@,
                ),
        decreases known.len() - k,
    {
        let known_chars = chars_of(known[k]);
        if eq_ignore_ascii_case_exec(known_chars.as_slice(), ext_chars.as_slice()) {
            return true;
        }
        k = k + 1;
    }
    false
}

/// Whether a title or artist holds characters outside ASCII, so that a
/// romanised spelling helps searching and sorting.
pub fn needs_romanization(text: &str) -> (r: bool)
    ensures
        r == !vstd::string::is_ascii(text),
{
    !text.is_ascii()
}

// ---------------------------------------------------------------------------
// Decimal numbers
// ---------------------------------------------------------------------------

pub open spec fn is_ascii_digit(c: char) -> bool {
    '0' <= c && c <= '9'
}

pub open spec fn digit_value(c: char) -> int {
    c as int - '0' as int
}

/// The value of a string of decimal digits.
pub open spec fn decimal_value(s: Seq<char>) -> int
    decreases s.len(),
{
    if s.len() == 0 {
        0
    } else {
        decimal_value(s.drop_last()) * 10 + digit_value(s.last())
    }
}

/// `s` without one leading `+`.
pub open spec fn unsigned_part(s: Seq<char>) -> Seq<char> {
    if s.len() > 0 && s[0] == '+' {
        s.drop_first()
    } else {
        s
    }
}

/// Every character is an ASCII digit.
pub open spec fn all_digits(d: Seq<char>) -> bool {
    forall|i: int| 0 <= i < d.len() ==> is_ascii_digit(#[trigger] d[i])
}

/// What `u32::from_str` accepts: an optional `+` followed by one or more
/// decimal digits whose value fits in a `u32`.
pub open spec fn parse_u32_spec(s: Seq<char>) -> Option<u32> {
    let digits = unsigned_part(s);
    if digits.len() > 0 && all_digits(digits) && decimal_value(digits) <= u32::MAX {
        Some(decimal_value(digits) as u32)
    } else {
        None
    }
}

proof fn lemma_decimal_value_monotone(s: Seq<char>, n: int)
    requires
        0 <= n <= s.len(),
        forall|i: int| 0 <= i < s.len() ==> is_ascii_digit(#[trigger] s[i]),
    ensures
        decimal_value(s.take(n)) <= decimal_value(s),
        0 <= decimal_value(s.take(n)),
    decreases s.len() - n,
{
    if n < s.len() {
        lemma_decimal_value_monotone(s, n + 1);
        assert(s.take(n + 1).drop_last() =~= s.take(n));
        assert(s.take(n + 1).last() == s[n]);
    } else {
        assert(s.take(n) =~= s);
    }
    lemma_decimal_nonnegative(s.take(n));
}

proof fn lemma_decimal_nonnegative(s: Seq<char>)
    requires
        forall|i: int| 0 <= i < s.len() ==> is_ascii_digit(#[trigger] s[i]),
    ensures
        0 <= decimal_value(s),
    decreases s.len(),
{
    if s.len() > 0 {
        lemma_decimal_nonnegative(s.drop_last());
    }
}

/// Parses an unsigned decimal number the way `u32::from_str` does.
pub fn parse_u32(s: &[char]) -> (r: Option<u32>)
    ensures
        r == parse_u32_spec(s@),
{
    let start: usize = if s.len() > 0 && s[0] == '+' {
        1
    } else {
        0
    };
    let ghost digits = unsigned_part(s@);
    assert(digits =~= s@.subrange(start as int, s@.len() as int));
    if start >= s.len() {
        return None;
    }
    let mut value: u64 = 0;
    let mut i: usize = start;
    while i < s.len()
        invariant
            start <= i <= s.len(),
            digits == unsigned_part(s@),
            digits =~= s@.subrange(start as int, s@.len() as int),
            forall|k: int| 0 <= k < i - start ==> is_ascii_digit(#[trigger] digits[k]),
            value as int == decimal_value(digits.take(i - start)),
            value <= u32::MAX,
        decreases s.len() - i,
    {
        let c = s[i];
        if !('0' <= c && c <= '9') {
            assert(!is_ascii_digit(digits[i - start]));
            assert(!(forall|k: int| 0 <= k < digits.len() ==> is_ascii_digit(#[trigger] digits[k])));
            return None;
        }
        assert(digits.take(i - start + 1).drop_last() =~= digits.take(i - start));
        assert(digits.take(i - start + 1).last() == c);
        let next = value * 10 + (c as u64 - '0' as u64);
        if next > 4294967295u64 {
            proof {
                assert(decimal_value(digits.take(i - start + 1)) == next as int);
                if forall|k: int| 0 <= k < digits.len() ==> is_ascii_digit(#[trigger] digits[k]) {
                    lemma_decimal_value_monotone(digits, i - start + 1);
                    assert(decimal_value(digits) > u32::MAX);
                }
            }
            return None;
        }
        value = next;
        i = i + 1;
    }
    assert(digits.take(digits.len() as int) =~= digits);
    Some(value as u32)
}

/// What `usize::from_str` accepts: an optional `+` followed by one or
/// more decimal digits whose value fits in a `usize`.
pub open spec fn parse_usize_spec(s: Seq<char>) -> Option<usize> {
    let digits = unsigned_part(s);
    if digits.len() > 0 && all_digits(digits) && decimal_value(digits) <= usize::MAX {
        Some(decimal_value(digits) as usize)
    } else {
        None
    }
}

/// Parses an unsigned decimal number the way `usize::from_str` does.
pub fn parse_usize(s: &[char]) -> (r: Option<usize>)
    ensures
        r == parse_usize_spec(s@),
{
    let start: usize = if s.len() > 0 && s[0] == '+' {
        1
    } else {
        0
    };
    let ghost digits = unsigned_part(s@);
    assert(digits =~= s@.subrange(start as int, s@.len() as int));
    if start >= s.len() {
        return None;
    }
    let mut value: usize = 0;
    let mut i: usize = start;
    while i < s.len()
        invariant
            start <= i <= s.len(),
            digits == unsigned_part(s@),
            digits =~= s@.subrange(start as int, s@.len() as int),
            forall|k: int| 0 <= k < i - start ==> is_ascii_digit(#[trigger] digits[k]),
            value as int == decimal_value(digits.take(i - start)),
        decreases s.len() - i,
    {
        let c = s[i];
        if !('0' <= c && c <= '9') {
            assert(!is_ascii_digit(digits[i - start]));
            assert(!(forall|k: int| 0 <= k < digits.len() ==> is_ascii_digit(#[trigger] digits[k])));
            return None;
        }
        assert(digits.take(i - start + 1).drop_last() =~= digits.take(i - start));
        assert(digits.take(i - start + 1).last() == c);
        let d: usize = (c as u32 - '0' as u32) as usize;
        let fits = match value.checked_mul(10) {
            Some(tens) => tens.checked_add(d),
            None => None,
        };
        match fits {
            Some(next) => {
                value = next;
            },
            None => {
                proof {
                    assert(decimal_value(digits.take(i - start + 1)) == value * 10 + d);
                    assert(value * 10 + d > usize::MAX);
                    if forall|k: int| 0 <= k < digits.len() ==> is_ascii_digit(#[trigger] digits[k]) {
                        lemma_decimal_value_monotone(digits, i - start + 1);
                        assert(decimal_value(digits) > usize::MAX);
                    }
                }
                return None;
            },
        }
        i = i + 1;
    }
    assert(digits.take(digits.len() as int) =~= digits);
    Some(value)
}

/// A track number typed into the tag editor: blank means no track number;
/// otherwise the trimmed text must parse as a `u32`. The error carries the
/// text as typed.
pub fn parse_track(input: &str) -> (r: Result<Option<u32>, String>)
    ensures
        trim_seq(input@).len() == 0 ==> r == Ok::<Option<u32>, String>(None),
        trim_seq(input@).len() > 0 ==> match parse_u32_spec(trim_seq(input@)) {
            Some(n) => r == Ok::<Option<u32>, String>(Some(n)),
            None => r matches Err(e) && e@ == input@,
        },
{
    let trimmed = trim(input);
    let chars = chars_of(trimmed);
    if chars.len() == 0 {
        return Ok(None);
    }
    match parse_u32(chars.as_slice()) {
        Some(n) => Ok(Some(n)),
        None => Err(string_from_chars(&chars_of(input))),
    }
}

/// The decimal digits of `n`, without leading zeros.
pub open spec fn decimal_digits(n: nat) -> Seq<char>
    decreases n,
{
    if n < 10 {
        seq![((n + 48) as u32) as char]
    } else {
        decimal_digits(n / 10).push((((n % 10) + 48) as u32) as char)
    }
}

pub(crate) fn decimal_chars(n: u64) -> (r: Vec<char>)
    ensures
        r@ == decimal_digits(n as nat),
    decreases n,
{
    if n < 10 {
        let mut v: Vec<char> = Vec::new();
        v.push(digit_char(n));
        v
    } else {
        let mut v = decimal_chars(n / 10);
        v.push(digit_char(n % 10));
        v
    }
}

fn digit_char(d: u64) -> (r: char)
    requires
        d < 10,
    ensures
        r == ((d + 48) as u32) as char,
{
    match d {
        0 => '0',
        1 => '1',
        2 => '2',
        3 => '3',
        4 => '4',
        5 => '5',
        6 => '6',
        7 => '7',
        8 => '8',
        _ => '9',
    }
}

/// `n` written in decimal.
pub fn decimal_string(n: u32) -> (r: String)
    ensures
        r@ == decimal_digits(n as nat),
{
    string_from_chars(&decimal_chars(n as u64))
}

/// `n` written in decimal.
pub fn decimal_usize(n: usize) -> (r: String)
    ensures
        r@ == decimal_digits(n as nat),
{
    string_from_chars(&decimal_chars(n as u64))
}


// ---------------------------------------------------------------------------
// Tags
// ---------------------------------------------------------------------------

/// A song's tags as the library keeps them. The date is kept as the text
/// of the tag's timestamp; the duration as whole seconds and nanoseconds.
#[derive(Clone, Debug, Default, PartialEq)]
pub struct Metadata {
    pub title: Option<String>,
    pub artist: Option<String>,
    pub album: Option<String>,
    pub genre: Option<String>,
    pub track: Option<u32>,
    pub date: Option<String>,
    pub duration_secs: u64,
    pub duration_nanos: u32,
    pub title_sort: Option<String>,
    pub artist_sort: Option<String>,
}

// ---------------------------------------------------------------------------
// Preparing a tag write
// ---------------------------------------------------------------------------

/// The fields lofty reads from a timestamp's text (year, then month, day,
/// hour, minute and second where present), or `None` when it cannot read
/// one.
pub uninterp spec fn lofty_timestamp(text: Seq<char>) -> Option<(u16, Option<u8>, Option<u8>, Option<u8>, Option<u8>, Option<u8>)>;

/// Trusted: `str::parse::<lofty::tag::items::Timestamp>` (lofty's
/// `Timestamp::from_str`, best-attempt parsing). The result is named, not
/// described: it depends on the text alone.
#[verifier::external_body]
fn parse_timestamp(text: &str) -> (r: Option<(u16, Option<u8>, Option<u8>, Option<u8>, Option<u8>, Option<u8>)>)
    ensures
        r == lofty_timestamp(text@),
{
    match text.parse::<lofty::tag::items::Timestamp>() {
        Ok(t) => Some((t.year, t.month, t.day, t.hour, t.minute, t.second)),
        Err(_) => None,
    }
}

/// A date to write into a tag.
#[derive(Debug, Clone, Copy, PartialEq, Eq, Structural)]
pub struct TagDate {
    pub year: u16,
    pub month: Option<u8>,
    pub day: Option<u8>,
    pub hour: Option<u8>,
    pub minute: Option<u8>,
    pub second: Option<u8>,
}

/// The date for a set of timestamp fields.
pub open spec fn tag_date_of(f: (u16, Option<u8>, Option<u8>, Option<u8>, Option<u8>, Option<u8>)) -> TagDate {
    TagDate { year: f.0, month: f.1, day: f.2, hour: f.3, minute: f.4, second: f.5 }
}

/// What a tag write sets: each text field trimmed, `None` where the field
/// is to be removed; the track number and the date, `None` where they are
/// to be removed.
pub struct TagEdits {
    pub title: Option<String>,
    pub artist: Option<String>,
    pub album: Option<String>,
    pub genre: Option<String>,
    pub title_sort: Option<String>,
    pub artist_sort: Option<String>,
    pub track: Option<u32>,
    pub date: Option<TagDate>,
}

/// Why a tag write was refused before touching the file: the text as typed.
#[derive(Debug, Clone, PartialEq, Eq)]
pub enum TagEditError {
    InvalidTrack(String),
    InvalidDate(String),
}

/// A text field as written: trimmed, and `None` (removed) when blank.
pub open spec fn tag_text(s: Seq<char>) -> Option<Seq<char>> {
    if trim_seq(s).len() == 0 {
        None
    } else {
        Some(trim_seq(s))
    }
}

/// The text of an optional string.
pub open spec fn opt_text(o: Option<String>) -> Option<Seq<char>> {
    match o {
        Some(s) => Some(s@),
        None => None,
    }
}

/// A date field as written: blank means none; otherwise lofty must read
/// the trimmed text.
pub open spec fn tag_date(s: Seq<char>) -> Option<Option<TagDate>> {
    if trim_seq(s).len() == 0 {
        Some(None)
    } else {
        match lofty_timestamp(trim_seq(s)) {
            Some(f) => Some(Some(tag_date_of(f))),
            None => None,
        }
    }
}

/// A text field made ready for writing (see [`tag_text`]).
fn prepared_text(s: &str) -> (r: Option<String>)
    ensures
        opt_text(r) == tag_text(s@),
{
    let trimmed = trim(s);
    let chars = chars_of(trimmed);
    if chars.len() == 0 {
        None
    } else {
        Some(trimmed.to_string())
    }
}

impl TagEditError {
    /// The message shown for the error.
    pub fn message(&self) -> (r: String)
        ensures
            match self {
                TagEditError::InvalidTrack(t) => r@ == "invalid track number \""@ + t@ + "\""@,
                TagEditError::InvalidDate(d) => r@ == "invalid date \""@ + d@
                    + "\" (try a year like 2024 or a full date like 2024-01-31)"@,
            },
    {
        match self {
            TagEditError::InvalidTrack(t) => {
                let out = "invalid track number \"".to_string();
                let out = out.concat(t.as_str());
                out.concat("\"")
            },
            TagEditError::InvalidDate(d) => {
                let out = "invalid date \"".to_string();
                let out = out.concat(d.as_str());
                out.concat("\" (try a year like 2024 or a full date like 2024-01-31)")
            },
        }
    }
}

/// What writing `edits` to a tag sets, or why it cannot be written: the
/// track number is checked first, then the date.
pub fn prepare_tag_edits(edits: &MetadataEdits) -> (r: Result<TagEdits, TagEditError>)
    ensures
        match r {
            Ok(t) => {
                &&& opt_text(t.title) == tag_text(edits.title@)
                &&& opt_text(t.artist) == tag_text(edits.artist@)
                &&& opt_text(t.album) == tag_text(edits.album@)
                &&& opt_text(t.genre) == tag_text(edits.genre@)
                &&& opt_text(t.title_sort) == tag_text(edits.title_sort@)
                &&& opt_text(t.artist_sort) == tag_text(edits.artist_sort@)
                &&& (trim_seq(edits.track@).len() == 0 ==> t.track is None)
                &&& (trim_seq(edits.track@).len() > 0 ==> parse_u32_spec(trim_seq(edits.track@)) == Some(
                    t.track.unwrap(),
                ) && t.track is Some)
                &&& tag_date(edits.date@) == Some(t.date)
            },
            Err(TagEditError::InvalidTrack(text)) => {
                &&& text@ == edits.track@
                &&& trim_seq(edits.track@).len() > 0
                &&& parse_u32_spec(trim_seq(edits.track@)) is None
            },
            Err(TagEditError::InvalidDate(text)) => {
                &&& text@ == edits.date@
                &&& (trim_seq(edits.track@).len() == 0 || parse_u32_spec(trim_seq(edits.track@)) is Some)
                &&& tag_date(edits.date@) is None
            },
        },
{
    let track = match parse_track(edits.track.as_str()) {
        Ok(t) => t,
        Err(text) => return Err(TagEditError::InvalidTrack(text)),
    };
    let trimmed_date = trim(edits.date.as_str());
    let date = if chars_of(trimmed_date).len() == 0 {
        None
    } else {
        match parse_timestamp(trimmed_date) {
            Some(f) => Some(TagDate { year: f.0, month: f.1, day: f.2, hour: f.3, minute: f.4, second: f.5 }),
            None => return Err(TagEditError::InvalidDate(edits.date.as_str().to_string())),
        }
    };
    Ok(TagEdits {
        title: prepared_text(edits.title.as_str()),
        artist: prepared_text(edits.artist.as_str()),
        album: prepared_text(edits.album.as_str()),
        genre: prepared_text(edits.genre.as_str()),
        title_sort: prepared_text(edits.title_sort.as_str()),
        artist_sort: prepared_text(edits.artist_sort.as_str()),
        track,
        date,
    })
}

/// The text fields of the tag editor.
#[derive(Debug, Clone, Default, PartialEq, Eq)]
pub struct MetadataEdits {
    pub title: String,
    pub artist: String,
    pub album: String,
    pub genre: String,
    pub track: String,
    pub date: String,
    pub title_sort: String,
    pub artist_sort: String,
}

/// An optional tag as editor text: empty when absent.
pub open spec fn text_or_empty(v: Option<String>) -> Seq<char> {
    match v {
        Some(s) => s@,
        None => Seq::empty(),
    }
}

fn copy_or_empty(v: &Option<String>) -> (r: String)
    ensures
        r@ == text_or_empty(*v),
{
    match v {
        Some(s) => s.clone(),
        None => String::new(),
    }
}

impl MetadataEdits {
    /// Fills the editor from a song's tags.
    pub fn from_metadata(metadata: &Metadata) -> (r: MetadataEdits)
        ensures
            r.title@ == text_or_empty(metadata.title),
            r.artist@ == text_or_empty(metadata.artist),
            r.album@ == text_or_empty(metadata.album),
            r.genre@ == text_or_empty(metadata.genre),
            r.track@ == match metadata.track {
                Some(t) => decimal_digits(t as nat),
                None => Seq::empty(),
            },
            r.date@ == text_or_empty(metadata.date),
            r.title_sort@ == text_or_empty(metadata.title_sort),
            r.artist_sort@ == text_or_empty(metadata.artist_sort),
    {
        let track = match metadata.track {
            Some(t) => decimal_string(t),
            None => String::new(),
        };
        MetadataEdits {
            title: copy_or_empty(&metadata.title),
            artist: copy_or_empty(&metadata.artist),
            album: copy_or_empty(&metadata.album),
            genre: copy_or_empty(&metadata.genre),
            track,
            date: copy_or_empty(&metadata.date),
            title_sort: copy_or_empty(&metadata.title_sort),
            artist_sort: copy_or_empty(&metadata.artist_sort),
        }
    }
}

// ---------------------------------------------------------------------------
// Songs
// ---------------------------------------------------------------------------

pub const UNKNOWN_TITLE: &'static str = "Unknown Title";
pub const UNKNOWN_ARTIST: &'static str = "Unknown Artist";
pub const UNKNOWN_ALBUM: &'static str = "Unknown Album";

/// The title shown for a song: its tag, else its file stem.
pub open spec fn display_title(path: Seq<char>, metadata: Metadata) -> Seq<char> {
    match metadata.title {
        Some(t) => t@,
        None => match path_file_stem(path) {
            Some(stem) => stem,
            None => UNKNOWN_TITLE@,
        },
    }
}

/// The artist shown for a song.
pub open spec fn display_artist(metadata: Metadata) -> Seq<char> {
    match metadata.artist {
        Some(a) => a@,
        None => UNKNOWN_ARTIST@,
    }
}

/// The album shown for a song.
pub open spec fn display_album(metadata: Metadata) -> Seq<char> {
    match metadata.album {
        Some(a) => a@,
        None => UNKNOWN_ALBUM@,
    }
}

/// The fields a search can match.
#[derive(Clone, Copy, Debug, PartialEq, Eq, Structural)]
pub enum SearchField {
    Title,
    Artist,
    Album,
    TitleSort,
    ArtistSort,
}

/// Fields that count as the same place for the same-field bonus.
#[derive(Clone, Copy, Debug, PartialEq, Eq, Structural)]
pub enum FieldGroup {
    Title,
    Artist,
    Album,
}

pub const TITLE_WEIGHT: u32 = 150;
pub const ARTIST_WEIGHT: u32 = 100;
pub const ALBUM_WEIGHT: u32 = 100;
pub const WEIGHT_SCALE: u32 = 100;

pub const SAME_FIELD_TITLE_BONUS: u32 = 120;
pub const SAME_FIELD_OTHER_BONUS: u32 = 60;
pub const PHRASE_TITLE_BONUS: u32 = 200;
pub const PHRASE_ARTIST_BONUS: u32 = 90;
pub const PHRASE_ALBUM_BONUS: u32 = 70;

pub open spec fn field_weight(f: SearchField) -> u32 {
    match f {
        SearchField::Title | SearchField::TitleSort => TITLE_WEIGHT,
        SearchField::Artist | SearchField::ArtistSort => ARTIST_WEIGHT,
        SearchField::Album => ALBUM_WEIGHT,
    }
}

pub open spec fn field_group(f: SearchField) -> FieldGroup {
    match f {
        SearchField::Title | SearchField::TitleSort => FieldGroup::Title,
        SearchField::Artist | SearchField::ArtistSort => FieldGroup::Artist,
        SearchField::Album => FieldGroup::Album,
    }
}

impl SearchField {
    pub fn weight(self) -> (r: u32)
        ensures
            r == field_weight(self),
    {
        match self {
            SearchField::Title | SearchField::TitleSort => TITLE_WEIGHT,
            SearchField::Artist | SearchField::ArtistSort => ARTIST_WEIGHT,
            SearchField::Album => ALBUM_WEIGHT,
        }
    }

    pub fn group(self) -> (r: FieldGroup)
        ensures
            r == field_group(self),
    {
        match self {
            SearchField::Title | SearchField::TitleSort => FieldGroup::Title,
            SearchField::Artist | SearchField::ArtistSort => FieldGroup::Artist,
            SearchField::Album => FieldGroup::Album,
        }
    }
}

/// A raw match score scaled by the field's weight (saturating).
pub open spec fn weighted(raw: u32, f: SearchField) -> u32 {
    let product = raw * field_weight(f);
    let capped = if product > u32::MAX {
        u32::MAX as int
    } else {
        product
    };
    (capped / (WEIGHT_SCALE as int)) as u32
}

/// The best field so far after looking at one more field; a later field
/// wins only with a strictly higher score.
pub open spec fn consider_field(
    best: Option<(u32, SearchField)>,
    field: (SearchField, Seq<char>),
    term: Seq<char>,
) -> Option<(u32, SearchField)> {
    match fuzzy_score(term, field.1) {
        Some(raw) => {
            let s = weighted(raw, field.0);
            match best {
                Some(b) => if s > b.0 {
                    Some((s, field.0))
                } else {
                    best
                },
                None => Some((s, field.0)),
            }
        },
        None => best,
    }
}

/// The best-scoring field for a term, the earliest among equals.
pub open spec fn best_field(fields: Seq<(SearchField, Seq<char>)>, term: Seq<char>) -> Option<
    (u32, SearchField),
>
    decreases fields.len(),
{
    if fields.len() == 0 {
        None
    } else {
        consider_field(best_field(fields.drop_last(), term), fields.last(), term)
    }
}

pub open spec fn sat_add(a: u32, b: u32) -> u32 {
    if a + b > u32::MAX {
        u32::MAX
    } else {
        (a + b) as u32
    }
}

/// Matching every term: the saturating sum of the best scores, the group of
/// the first term's field, and whether every term matched in that group.
/// `None` as soon as one term matches no field.
pub open spec fn terms_outcome(
    fields: Seq<(SearchField, Seq<char>)>,
    terms: Seq<Seq<char>>,
) -> Option<(u32, Option<FieldGroup>, bool)>
    decreases terms.len(),
{
    if terms.len() == 0 {
        Some((0u32, None, true))
    } else {
        match terms_outcome(fields, terms.drop_last()) {
            None => None,
            Some((total, group, same)) => match best_field(fields, terms.last()) {
                None => None,
                Some((s, f)) => Some(
                    (
                        sat_add(total, s),
                        match group {
                            None => Some(field_group(f)),
                            Some(g) => Some(g),
                        },
                        same && match group {
                            None => true,
                            Some(g) => g == field_group(f),
                        },
                    ),
                ),
            },
        }
    }
}

pub open spec fn same_field_bonus(group: Option<FieldGroup>) -> u32 {
    match group {
        Some(FieldGroup::Title) => SAME_FIELD_TITLE_BONUS,
        Some(_) => SAME_FIELD_OTHER_BONUS,
        None => 0,
    }
}

pub open spec fn phrase_bonus(group: FieldGroup) -> u32 {
    match group {
        FieldGroup::Title => PHRASE_TITLE_BONUS,
        FieldGroup::Artist => PHRASE_ARTIST_BONUS,
        FieldGroup::Album => PHRASE_ALBUM_BONUS,
    }
}

/// A song's score for a query: every term must match some field; a query
/// of several terms earns a bonus when all terms match in one group of
/// fields, and another when the whole phrase matches a field.
pub open spec fn query_score(
    fields: Seq<(SearchField, Seq<char>)>,
    terms: Seq<Seq<char>>,
    phrase: Seq<char>,
) -> Option<u32> {
    if terms.len() == 0 {
        Some(0u32)
    } else {
        match terms_outcome(fields, terms) {
            None => None,
            Some((total, group, same)) => {
                let multi = terms.len() > 1;
                let with_group = if multi && same {
                    sat_add(total, same_field_bonus(group))
                } else {
                    total
                };
                let with_phrase = if multi {
                    match best_field(fields, phrase) {
                        Some((_, f)) => sat_add(with_group, phrase_bonus(field_group(f))),
                        None => with_group,
                    }
                } else {
                    with_group
                };
                Some(with_phrase)
            },
        }
    }
}

/// The searchable fields of a song, normalised, in the order they are tried.
pub open spec fn search_fields(path: Seq<char>, metadata: Metadata) -> Seq<
    (SearchField, Seq<char>),
> {
    let main = seq![
        (SearchField::Title, normalized(display_title(path, metadata))),
        (SearchField::Artist, normalized(display_artist(metadata))),
        (SearchField::Album, normalized(display_album(metadata))),
    ];
    let with_title_sort = match metadata.title_sort {
        Some(t) => main.push((SearchField::TitleSort, normalized(t@))),
        None => main,
    };
    match metadata.artist_sort {
        Some(a) => with_title_sort.push((SearchField::ArtistSort, normalized(a@))),
        None => with_title_sort,
    }
}

#[derive(Debug)]
struct SortKeys {
    title: String,
    artist: String,
    fuzzy_title: Candidate,
    fuzzy_artist: Candidate,
    fuzzy_album: Candidate,
    fuzzy_title_sort: Option<Candidate>,
    fuzzy_artist_sort: Option<Candidate>,
}

/// A candidate's view, if present.
pub open spec fn candidate_view(c: Option<Candidate>) -> Option<Seq<char>> {
    match c {
        Some(x) => Some(x@),
        None => None,
    }
}

/// An optional tag's normalised text.
pub open spec fn normalized_tag(t: Option<String>) -> Option<Seq<char>> {
    match t {
        Some(s) => Some(normalized(s@)),
        None => None,
    }
}

/// A song in the library.
#[derive(Debug)]
pub struct Song {
    id: SongId,
    path: String,
    metadata: Metadata,
    title: String,
    keys: SortKeys,
    mtime_secs: u64,
}

#[derive(Clone, Copy, Debug)]
struct TermMatch {
    score: u32,
    field: SearchField,
}

spec fn term_match_view(m: Option<TermMatch>) -> Option<(u32, SearchField)> {
    match m {
        Some(t) => Some((t.score, t.field)),
        None => None,
    }
}

fn weighted_score(raw: u32, field: SearchField) -> (r: u32)
    ensures
        r == weighted(raw, field),
{
    let w = field.weight();
    assert((raw as u64) * (w as u64) <= 4294967295u64 * 150) by (nonlinear_arith)
        requires
            w <= 150,
    ;
    let product: u64 = raw as u64 * w as u64;
    let capped: u64 = if product > 4294967295u64 {
        4294967295u64
    } else {
        product
    };
    (capped / 100) as u32
}

fn consider(best: Option<TermMatch>, field: SearchField, candidate: &Candidate, pattern: &Pattern) -> (r:
    Option<TermMatch>)
    ensures
        term_match_view(r) == consider_field(term_match_view(best), (field, candidate@), pattern@),
{
    match score(pattern, candidate) {
        Some(raw) => {
            let s = weighted_score(raw, field);
            match best {
                Some(b) => if s > b.score {
                    Some(TermMatch { score: s, field })
                } else {
                    best
                },
                None => Some(TermMatch { score: s, field }),
            }
        },
        None => best,
    }
}

impl Song {
    #[verifier::type_invariant]
    spec fn well_formed(self) -> bool {
        &&& self.id.raw_value() == path_hash(self.path@)
        &&& self.title@ == display_title(self.path@, self.metadata)
        &&& self.keys.title@ == str_lowercase(display_title(self.path@, self.metadata))
        &&& self.keys.artist@ == str_lowercase(display_artist(self.metadata))
        &&& self.keys.fuzzy_title@ == normalized(display_title(self.path@, self.metadata))
        &&& self.keys.fuzzy_artist@ == normalized(display_artist(self.metadata))
        &&& self.keys.fuzzy_album@ == normalized(display_album(self.metadata))
        &&& candidate_view(self.keys.fuzzy_title_sort) == normalized_tag(self.metadata.title_sort)
        &&& candidate_view(self.keys.fuzzy_artist_sort) == normalized_tag(
            self.metadata.artist_sort,
        )
    }

    pub closed spec fn path_view(&self) -> Seq<char> {
        self.path@
    }

    pub closed spec fn metadata_view(&self) -> Metadata {
        self.metadata
    }

    pub closed spec fn modified_view(&self) -> u64 {
        self.mtime_secs
    }

    /// A song from cached tags and file facts; its id is derived from the path.
    pub fn from_cached_with_stat(path: String, _len: u64, modified_secs: u64, metadata: Metadata) -> (r:
        Song)
        ensures
            r.id_view().raw_value() == path_hash(path@),
            r.path_view() == path@,
            r.metadata_view() == metadata,
            r.modified_view() == modified_secs,
    {
        let id = SongId::compute(path.as_str());
        Song::assemble(id, path, metadata, modified_secs)
    }

    /// A song from tags read off the file at `path`.
    pub fn from_probed(path: String, modified_secs: u64, metadata: Metadata) -> (r: Song)
        ensures
            r.id_view().raw_value() == path_hash(path@),
            r.path_view() == path@,
            r.metadata_view() == metadata,
            r.modified_view() == modified_secs,
    {
        Song::from_cached_with_stat(path, 0, modified_secs, metadata)
    }

    fn assemble(id: SongId, path: String, metadata: Metadata, mtime_secs: u64) -> (r: Song)
        requires
            id.raw_value() == path_hash(path@),
        ensures
            r.id == id,
            r.path@ == path@,
            r.metadata == metadata,
            r.mtime_secs == mtime_secs,
    {
        let title: String = match &metadata.title {
            Some(t) => t.clone(),
            None => match file_stem_of(path.as_str()) {
                Some(stem) => stem,
                None => UNKNOWN_TITLE.to_string(),
            },
        };
        let artist: &str = match &metadata.artist {
            Some(a) => a.as_str(),
            None => UNKNOWN_ARTIST,
        };
        let album: &str = match &metadata.album {
            Some(a) => a.as_str(),
            None => UNKNOWN_ALBUM,
        };
        let fuzzy_title_sort = match &metadata.title_sort {
            Some(t) => Some(Candidate::new(t.as_str())),
            None => None,
        };
        let fuzzy_artist_sort = match &metadata.artist_sort {
            Some(a) => Some(Candidate::new(a.as_str())),
            None => None,
        };
        let keys = SortKeys {
            title: lowercase_str(title.as_str()),
            artist: lowercase_str(artist),
            fuzzy_title: Candidate::new(title.as_str()),
            fuzzy_artist: Candidate::new(artist),
            fuzzy_album: Candidate::new(album),
            fuzzy_title_sort,
            fuzzy_artist_sort,
        };
        Song { id, path, metadata, title, keys, mtime_secs }
    }

    pub closed spec fn id_view(&self) -> SongId {
        self.id
    }

    pub fn id(&self) -> (r: SongId)
        ensures
            r == self.id_view(),
    {
        self.id
    }

    pub fn path(&self) -> (r: &str)
        ensures
            r@ == self.path_view(),
    {
        self.path.as_str()
    }

    pub fn metadata(&self) -> (r: &Metadata)
        ensures
            *r == self.metadata_view(),
    {
        &self.metadata
    }

    pub fn modified(&self) -> (r: u64)
        ensures
            r == self.modified_view(),
    {
        self.mtime_secs
    }

    /// The title tag, else the file stem.
    pub fn title(&self) -> (r: &str)
        ensures
            r@ == display_title(self.path_view(), self.metadata_view()),
    {
        proof {
            use_type_invariant(self);
        }
        self.title.as_str()
    }

    /// The artist tag, else "Unknown Artist".
    pub fn artist(&self) -> (r: &str)
        ensures
            r@ == display_artist(self.metadata_view()),
    {
        match &self.metadata.artist {
            Some(a) => a.as_str(),
            None => UNKNOWN_ARTIST,
        }
    }

    /// The album tag, else "Unknown Album".
    pub fn album(&self) -> (r: &str)
        ensures
            r@ == display_album(self.metadata_view()),
    {
        match &self.metadata.album {
            Some(a) => a.as_str(),
            None => UNKNOWN_ALBUM,
        }
    }

    /// The lowercase title the lists sort by.
    pub fn sort_title(&self) -> (r: &str)
        ensures
            r@ == str_lowercase(display_title(self.path_view(), self.metadata_view())),
    {
        proof {
            use_type_invariant(self);
        }
        self.keys.title.as_str()
    }

    /// The lowercase artist the lists sort and group by.
    pub fn sort_artist(&self) -> (r: &str)
        ensures
            r@ == str_lowercase(display_artist(self.metadata_view())),
    {
        proof {
            use_type_invariant(self);
        }
        self.keys.artist.as_str()
    }

    /// The searchable fields of this song.
    pub open spec fn fields(&self) -> Seq<(SearchField, Seq<char>)> {
        search_fields(self.path_view(), self.metadata_view())
    }

    fn best_field_match(&self, pattern: &Pattern) -> (r: Option<TermMatch>)
        ensures
            term_match_view(r) == best_field(self.fields(), pattern@),
    {
        proof {
            use_type_invariant(self);
        }
        let ghost main = seq![
            (SearchField::Title, normalized(display_title(self.path@, self.metadata))),
            (SearchField::Artist, normalized(display_artist(self.metadata))),
            (SearchField::Album, normalized(display_album(self.metadata))),
        ];
        assert(main.drop_last().drop_last().drop_last() =~= Seq::<(SearchField, Seq<char>)>::empty());
        assert(main.drop_last().drop_last().last() == main[0]);
        assert(main.drop_last().last() == main[1]);
        assert(best_field(Seq::<(SearchField, Seq<char>)>::empty(), pattern@) is None);
        let mut best: Option<TermMatch> = None;
        best = consider(best, SearchField::Title, &self.keys.fuzzy_title, pattern);
        assert(term_match_view(best) == best_field(main.drop_last().drop_last(), pattern@));
        best = consider(best, SearchField::Artist, &self.keys.fuzzy_artist, pattern);
        assert(term_match_view(best) == best_field(main.drop_last(), pattern@));
        best = consider(best, SearchField::Album, &self.keys.fuzzy_album, pattern);
        assert(term_match_view(best) == best_field(main, pattern@));
        let ghost with_title_sort = match normalized_tag(self.metadata.title_sort) {
            Some(t) => main.push((SearchField::TitleSort, t)),
            None => main,
        };
        if let Some(candidate) = &self.keys.fuzzy_title_sort {
            best = consider(best, SearchField::TitleSort, candidate, pattern);
            assert(with_title_sort.drop_last() =~= main);
        }
        assert(term_match_view(best) == best_field(with_title_sort, pattern@));
        if let Some(candidate) = &self.keys.fuzzy_artist_sort {
            best = consider(best, SearchField::ArtistSort, candidate, pattern);
            assert(self.fields().drop_last() =~= with_title_sort);
        }
        best
    }

    /// Scores this song against a compiled query (`None` when a term
    /// matches no field).
    pub fn fuzzy_score(&self, query: &FuzzyQuery) -> (r: Option<u32>)
        ensures
            r == query_score(self.fields(), query.terms_view(), query.phrase_view()),
    {
        if query.is_empty() {
            return Some(0);
        }
        let terms = query.terms();
        let ghost tv = query.terms_view();
        let mut total: u32 = 0;
        let mut group: Option<FieldGroup> = None;
        let mut same_group = true;
        let mut i: usize = 0;
        while i < terms.len()
            invariant
                pattern_views(terms@) == tv,
                tv == query.terms_view(),
                tv.len() > 0,
                0 <= i <= terms@.len(),
                terms_outcome(self.fields(), tv.take(i as int)) == Some((total, group, same_group)),
            decreases terms.len() - i,
        {
            assert(tv.take(i + 1).drop_last() =~= tv.take(i as int));
            assert(tv.take(i + 1).last() == terms@[i as int]@);
            let matched = match self.best_field_match(&terms[i]) {
                Some(m) => m,
                None => {
                    proof {
                        lemma_outcome_fails_later(self.fields(), tv, i as int + 1);
                    }
                    return None;
                },
            };
            total = total.saturating_add(matched.score);
            match group {
                None => group = Some(matched.field.group()),
                Some(current) => {
                    if current != matched.field.group() {
                        same_group = false;
                    }
                },
            }
            i = i + 1;
        }
        assert(tv.take(tv.len() as int) =~= tv);
        let multi = query.is_multi_term();
        if multi && same_group {
            let bonus = match group {
                Some(FieldGroup::Title) => SAME_FIELD_TITLE_BONUS,
                Some(_) => SAME_FIELD_OTHER_BONUS,
                None => 0,
            };
            total = total.saturating_add(bonus);
        }
        if multi {
            if let Some(phrase) = self.best_field_match(query.phrase()) {
                let bonus = match phrase.field.group() {
                    FieldGroup::Title => PHRASE_TITLE_BONUS,
                    FieldGroup::Artist => PHRASE_ARTIST_BONUS,
                    FieldGroup::Album => PHRASE_ALBUM_BONUS,
                };
                total = total.saturating_add(bonus);
            }
        }
        Some(total)
    }

    /// "artist - title (album)", the way the status line names a song.
    pub fn label(&self) -> (r: String)
        ensures
            r@ == display_artist(self.metadata_view()) + " - "@ + display_title(
                self.path_view(),
                self.metadata_view(),
            ) + " ("@ + display_album(self.metadata_view()) + ")"@,
    {
        let out = self.artist().to_string();
        let out = out.concat(" - ");
        let out = out.concat(self.title());
        let out = out.concat(" (");
        let out = out.concat(self.album());
        out.concat(")")
    }
}

proof fn lemma_outcome_fails_later(
    fields: Seq<(SearchField, Seq<char>)>,
    terms: Seq<Seq<char>>,
    n: int,
)
    requires
        0 < n <= terms.len(),
        terms_outcome(fields, terms.take(n)) is None,
    ensures
        terms_outcome(fields, terms) is None,
    decreases terms.len() - n,
{
    if n < terms.len() {
        assert(terms.take(n + 1).drop_last() =~= terms.take(n));
        lemma_outcome_fails_later(fields, terms, n + 1);
    } else {
        assert(terms.take(n) =~= terms);
    }
}

/// A term matches some field exactly when it fuzzy-matches the text of
/// one of them.
pub proof fn lemma_best_field_finds_any_match(fields: Seq<(SearchField, Seq<char>)>, term: Seq<char>)
    ensures
        best_field(fields, term) is Some <==> exists|i: int|
            0 <= i < fields.len() && (#[trigger] fuzzy_score(term, fields[i].1)) is Some,
    decreases fields.len(),
{
    if fields.len() > 0 {
        let rest = fields.drop_last();
        lemma_best_field_finds_any_match(rest, term);
        if exists|i: int| 0 <= i < fields.len() && (#[trigger] fuzzy_score(term, fields[i].1)) is Some {
            let i = choose|i: int| 0 <= i < fields.len() && (#[trigger] fuzzy_score(term, fields[i].1)) is Some;
            if i < fields.len() - 1 {
                assert(fuzzy_score(term, rest[i].1) is Some);
            }
        }
        if best_field(rest, term) is Some {
            let i = choose|i: int| 0 <= i < rest.len() && (#[trigger] fuzzy_score(term, rest[i].1)) is Some;
            assert(fuzzy_score(term, fields[i].1) is Some);
        }
    }
}

/// Every tag of a song is searched: a term that fuzzy-matches the
/// normalised title, artist or album, or a romanised title or artist the
/// song is tagged with, finds the song's field.
pub proof fn lemma_every_tag_is_searched(song: Song, term: Seq<char>)
    ensures
        ({
            let md = song.metadata_view();
            let found = best_field(song.fields(), term) is Some;
            &&& fuzzy_score(term, normalized(display_title(song.path_view(), md))) is Some ==> found
            &&& fuzzy_score(term, normalized(display_artist(md))) is Some ==> found
            &&& fuzzy_score(term, normalized(display_album(md))) is Some ==> found
            &&& (md.title_sort matches Some(t) && fuzzy_score(term, normalized(t@)) is Some) ==> found
            &&& (md.artist_sort matches Some(a) && fuzzy_score(term, normalized(a@)) is Some) ==> found
        }),
{
    let md = song.metadata_view();
    let fields = song.fields();
    lemma_best_field_finds_any_match(fields, term);
    assert(fields[0].1 == normalized(display_title(song.path_view(), md)));
    assert(fields[1].1 == normalized(display_artist(md)));
    assert(fields[2].1 == normalized(display_album(md)));
    if fuzzy_score(term, fields[0].1) is Some {
        assert(fuzzy_score(term, fields[0].1) is Some);
    }
    if fuzzy_score(term, fields[1].1) is Some {
        assert(fuzzy_score(term, fields[1].1) is Some);
    }
    if fuzzy_score(term, fields[2].1) is Some {
        assert(fuzzy_score(term, fields[2].1) is Some);
    }
    if let Some(t) = md.title_sort {
        assert(fields[3].1 == normalized(t@));
        if fuzzy_score(term, fields[3].1) is Some {
            assert(fuzzy_score(term, fields[3].1) is Some);
        }
    }
    if let Some(a) = md.artist_sort {
        let k = fields.len() - 1;
        assert(fields[k].1 == normalized(a@));
        if fuzzy_score(term, fields[k].1) is Some {
            assert(fuzzy_score(term, fields[k].1) is Some);
        }
    }
}

/// A song is found by a query when every term of it matches one of the
/// song's fields, whatever the phrase.
pub proof fn lemma_found_when_every_term_matches(
    fields: Seq<(SearchField, Seq<char>)>,
    terms: Seq<Seq<char>>,
    phrase: Seq<char>,
)
    requires
        forall|k: int| 0 <= k < terms.len() ==> best_field(fields, #[trigger] terms[k]) is Some,
    ensures
        query_score(fields, terms, phrase) is Some,
{
    lemma_outcome_found(fields, terms);
}

proof fn lemma_outcome_found(fields: Seq<(SearchField, Seq<char>)>, terms: Seq<Seq<char>>)
    requires
        forall|k: int| 0 <= k < terms.len() ==> best_field(fields, #[trigger] terms[k]) is Some,
    ensures
        terms_outcome(fields, terms) is Some,
    decreases terms.len(),
{
    if terms.len() > 0 {
        let rest = terms.drop_last();
        assert forall|k: int| 0 <= k < rest.len() implies best_field(fields, #[trigger] rest[k]) is Some by {
            assert(rest[k] == terms[k]);
        }
        lemma_outcome_found(fields, rest);
        assert(best_field(fields, terms[terms.len() - 1]) is Some);
    }
}

} // verus!
