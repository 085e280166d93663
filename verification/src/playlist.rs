//! Playlists and the store that keeps them: identifiers, names, songs, the
//! index of which playlists hold a song, and the bookkeeping that decides
//! when the store needs saving.

use std::collections::HashMap;
use std::time::Instant;

use vstd::prelude::*;

use crate::fuzzy::{fuzzy_score, normalized, pattern_views, score, Candidate, FuzzyQuery};
use crate::random;
use crate::song::{sat_add, SongId};
use crate::text::{char_lowercase, chars_of, lowercase_of, lowercase_str, str_lowercase, string_from_chars};

verus! {

broadcast use {vstd::array::group_array_axioms, vstd::std_specs::hash::group_hash_axioms};

/// A playlist's identifier: sixteen random bytes in the layout of a
/// version 4 UUID.
#[derive(Debug, Clone, Copy, PartialEq, Eq, Hash, PartialOrd, Ord)]
pub struct PlaylistId([u8; 16]);

/// The digit for a value below 16, in lower case.
pub open spec fn hex_digit_char(v: int) -> char {
    if v < 10 {
        (48 + v) as char
    } else {
        (87 + v) as char
    }
}

/// Whether `c` is an ASCII hexadecimal digit, in either case.
pub open spec fn is_hex_char(c: char) -> bool {
    ('0' <= c && c <= '9') || ('a' <= c && c <= 'f') || ('A' <= c && c <= 'F')
}

/// The value of a hexadecimal digit.
pub open spec fn hex_value(c: char) -> int {
    if '0' <= c && c <= '9' {
        c as int - 48
    } else if 'a' <= c && c <= 'f' {
        c as int - 87
    } else {
        c as int - 55
    }
}

/// The 32 hexadecimal digits of `bytes`, two per byte, high nibble first.
pub open spec fn hex_digits(bytes: Seq<u8>) -> Seq<char> {
    Seq::new(
        2 * bytes.len(),
        |k: int|
            hex_digit_char(
                if k % 2 == 0 {
                    bytes[k / 2] / 16
                } else {
                    bytes[k / 2] % 16
                } as int,
            ),
    )
}

/// The textual form of an identifier: its digits grouped 8-4-4-4-12 and
/// joined by hyphens.
pub open spec fn id_text(bytes: Seq<u8>) -> Seq<char> {
    let d = hex_digits(bytes);
    d.subrange(0, 8) + seq!['-'] + d.subrange(8, 12) + seq!['-'] + d.subrange(12, 16) + seq!['-']
        + d.subrange(16, 20) + seq!['-'] + d.subrange(20, 32)
}

/// Whether a character is kept when an identifier is read: hyphens and
/// braces are dropped.
pub open spec fn kept_in_id(c: char) -> bool {
    c != '-' && c != '{' && c != '}'
}

/// `s` without its hyphens and braces.
pub open spec fn strip_id_punctuation(s: Seq<char>) -> Seq<char>
    decreases s.len(),
{
    if s.len() == 0 {
        Seq::empty()
    } else {
        strip_id_punctuation(s.drop_last()) + if kept_in_id(s.last()) {
            seq![s.last()]
        } else {
            Seq::empty()
        }
    }
}

/// The bytes an identifier's text stands for: after hyphens and braces are
/// dropped, exactly 32 hexadecimal digits, read in pairs.
pub open spec fn parse_id_spec(s: Seq<char>) -> Option<Seq<u8>> {
    let c = strip_id_punctuation(s);
    if c.len() == 32 && forall|k: int| 0 <= k < 32 ==> is_hex_char(#[trigger] c[k]) {
        Some(Seq::new(16, |i: int| (hex_value(c[2 * i]) * 16 + hex_value(c[2 * i + 1])) as u8))
    } else {
        None
    }
}

/// The lower-case digit for `v`.
fn hex_char(v: u8) -> (r: char)
    requires
        v < 16,
    ensures
        r == hex_digit_char(v as int),
{
    if v < 10 {
        (48 + v) as char
    } else {
        (87 + v) as char
    }
}

/// The value of `c` when it is a hexadecimal digit.
pub(crate) fn hex_char_value(c: char) -> (r: Option<u8>)
    ensures
        is_hex_char(c) ==> r == Some(hex_value(c) as u8) && hex_value(c) < 16,
        !is_hex_char(c) ==> r is None,
{
    if '0' <= c && c <= '9' {
        Some((c as u32 - 48) as u8)
    } else if 'a' <= c && c <= 'f' {
        Some((c as u32 - 87) as u8)
    } else if 'A' <= c && c <= 'F' {
        Some((c as u32 - 55) as u8)
    } else {
        None
    }
}

proof fn lemma_strip_concat(a: Seq<char>, b: Seq<char>)
    ensures
        strip_id_punctuation(a + b) == strip_id_punctuation(a) + strip_id_punctuation(b),
    decreases b.len(),
{
    if b.len() == 0 {
        assert(a + b =~= a);
        assert(strip_id_punctuation(a) + strip_id_punctuation(b) =~= strip_id_punctuation(a));
    } else {
        lemma_strip_concat(a, b.drop_last());
        assert((a + b).drop_last() =~= a + b.drop_last());
        assert((a + b).last() == b.last());
    }
}

proof fn lemma_strip_keeps_digits(s: Seq<char>)
    requires
        forall|k: int| 0 <= k < s.len() ==> kept_in_id(#[trigger] s[k]),
    ensures
        strip_id_punctuation(s) == s,
    decreases s.len(),
{
    if s.len() > 0 {
        lemma_strip_keeps_digits(s.drop_last());
        assert(s.drop_last() + seq![s.last()] =~= s);
    }
}

proof fn lemma_digit_round_trip(v: int)
    requires
        0 <= v < 16,
    ensures
        is_hex_char(hex_digit_char(v)),
        kept_in_id(hex_digit_char(v)),
        hex_value(hex_digit_char(v)) == v,
{
}

impl PlaylistId {
    /// The identifier's sixteen bytes.
    pub closed spec fn bytes(&self) -> Seq<u8> {
        self.0@
    }

    /// The identifier made of sixteen drawn bytes, marked as a version 4
    /// UUID: the high nibble of byte 6 becomes 4 and the two high bits of
    /// byte 8 become `10`; every other bit is the drawn one.
    pub fn from_drawn(bytes: [u8; 16]) -> (r: PlaylistId)
        ensures
            r.bytes().len() == 16,
            forall|k: int| 0 <= k < 16 && k != 6 && k != 8 ==> r.bytes()[k] == bytes@[k],
            r.bytes()[6] == (bytes@[6] & 0x0f) | 0x40,
            r.bytes()[8] == (bytes@[8] & 0x3f) | 0x80,
            r.bytes()[6] & 0xf0 == 0x40,
            r.bytes()[8] & 0xc0 == 0x80,
    {
        let mut out = bytes;
        let x6 = out[6];
        let x8 = out[8];
        let b6 = (x6 & 0x0f) | 0x40;
        let b8 = (x8 & 0x3f) | 0x80;
        assert(b6 & 0xf0 == 0x40) by (bit_vector)
            requires
                b6 == (x6 & 0x0f) | 0x40,
        ;
        assert(b8 & 0xc0 == 0x80) by (bit_vector)
            requires
                b8 == (x8 & 0x3f) | 0x80,
        ;
        out[6] = b6;
        out[8] = b8;
        PlaylistId(out)
    }

    /// A fresh random identifier: sixteen random bytes, marked as a version
    /// 4 UUID ([`PlaylistId::from_drawn`]).
    pub fn new() -> (r: PlaylistId)
        ensures
            r.bytes().len() == 16,
            r.bytes()[6] & 0xf0 == 0x40,
            r.bytes()[8] & 0xc0 == 0x80,
    {
        let mut bytes = [0u8; 16];
        random::random_bytes(&mut bytes);
        PlaylistId::from_drawn(bytes)
    }

    /// Byte `i` of the identifier.
    pub fn byte_at(&self, i: usize) -> (r: u8)
        requires
            i < 16,
        ensures
            r == self.bytes()[i as int],
    {
        self.0[i]
    }

    /// Identifiers with the same bytes are the same identifier.
    pub proof fn lemma_bytes_determine(a: PlaylistId, b: PlaylistId)
        requires
            forall|q: int| 0 <= q < 16 ==> a.bytes()[q] == b.bytes()[q],
        ensures
            a == b,
    {
        assert forall|q: int| 0 <= q < 16 implies a.0[q] == b.0[q] by {
            assert(a.bytes()[q] == b.bytes()[q]);
            assert(a.0@[q] == b.0@[q]);
        }
        assert(a.0 =~= b.0);
    }

    /// The identifier with the given bytes.
    pub fn from_bytes(bytes: [u8; 16]) -> (r: PlaylistId)
        ensures
            r.bytes() == bytes@,
    {
        PlaylistId(bytes)
    }

    /// The textual form: 32 lower-case hexadecimal digits grouped 8-4-4-4-12
    /// by hyphens.
    pub fn to_string(&self) -> (r: String)
        ensures
            r@ == id_text(self.bytes()),
    {
        let mut out: Vec<char> = Vec::new();
        let mut i: usize = 0;
        while i < 16
            invariant
                i <= 16,
                self.0@.len() == 16,
                out@ == id_text(self.0@).take(
                    (2 * i + if i > 10 {
                        4int
                    } else if i > 8 {
                        3int
                    } else if i > 6 {
                        2int
                    } else if i > 4 {
                        1int
                    } else {
                        0int
                    }) as int,
                ),
            decreases 16 - i,
        {
            let ghost d = hex_digits(self.0@);
            let ghost t = id_text(self.0@);
            let ghost before = out@;
            if i == 4 || i == 6 || i == 8 || i == 10 {
                out.push('-');
            }
            let b = self.0[i];
            out.push(hex_char(b / 16));
            out.push(hex_char(b % 16));
            i = i + 1;
            proof {
                let n = 2 * i + if i > 10 {
                    4int
                } else if i > 8 {
                    3int
                } else if i > 6 {
                    2int
                } else if i > 4 {
                    1int
                } else {
                    0int
                };
                assert(d[2 * (i - 1)] == hex_digit_char((b / 16) as int));
                assert(d[2 * (i - 1) + 1] == hex_digit_char((b % 16) as int));
                assert(out@ =~= t.take(n));
            }
        }
        assert(id_text(self.0@).len() == 36);
        assert(out@ =~= id_text(self.0@));
        string_from_chars(&out)
    }
}

/// Reads an identifier from its textual form: hyphens and braces are
/// ignored, and exactly 32 hexadecimal digits must remain.
pub fn parse_hex(s: &str) -> (r: Result<PlaylistId, String>)
    ensures
        match parse_id_spec(s@) {
            Some(bytes) => r matches Ok(id) && id.bytes() == bytes,
            None => r matches Err(message) && message@ == "invalid playlist id: "@ + s@,
        },
{
    let chars = chars_of(s);
    let mut cleaned: Vec<char> = Vec::new();
    let mut i: usize = 0;
    while i < chars.len()
        invariant
            i <= chars@.len(),
            chars@ == s@,
            cleaned@ == strip_id_punctuation(s@.take(i as int)),
        decreases chars@.len() - i,
    {
        let c = chars[i];
        if c != '-' && c != '{' && c != '}' {
            cleaned.push(c);
        }
        i = i + 1;
        assert(s@.take(i as int).drop_last() =~= s@.take(i - 1));
    }
    assert(s@.take(s@.len() as int) =~= s@);
    let ghost c = cleaned@;
    if cleaned.len() != 32 {
        let message = "invalid playlist id: ".to_string();
        return Err(message.concat(s));
    }
    let mut values: Vec<u8> = Vec::new();
    let mut k: usize = 0;
    while k < 32
        invariant
            cleaned@ == c,
            c == strip_id_punctuation(s@),
            c.len() == 32,
            k <= 32,
            values@.len() == k,
            forall|j: int| 0 <= j < k ==> is_hex_char(#[trigger] c[j]),
            forall|j: int| 0 <= j < k ==> values@[j] == hex_value(#[trigger] c[j]),
            forall|j: int| 0 <= j < k ==> values@[j] < 16,
        decreases 32 - k,
    {
        match hex_char_value(cleaned[k]) {
            Some(v) => {
                values.push(v);
            },
            None => {
                assert(!is_hex_char(c[k as int]));
                let message = "invalid playlist id: ".to_string();
                return Err(message.concat(s));
            },
        }
        k = k + 1;
    }
    let mut bytes = [0u8; 16];
    let mut j: usize = 0;
    while j < 16
        invariant
            j <= 16,
            values@.len() == 32,
            forall|q: int| 0 <= q < 32 ==> values@[q] == hex_value(#[trigger] c[q]),
            forall|q: int| 0 <= q < 32 ==> values@[q] < 16,
            forall|q: int|
                0 <= q < j ==> bytes@[q] == (hex_value(c[2 * q]) * 16 + hex_value(c[2 * q + 1])) as u8,
        decreases 16 - j,
    {
        let hi = values[2 * j];
        let lo = values[2 * j + 1];
        bytes[j] = hi * 16 + lo;
        j = j + 1;
    }
    let id = PlaylistId(bytes);
    assert(id.bytes() =~= parse_id_spec(s@).unwrap());
    Ok(id)
}

/// Braces round an identifier's text are ignored when it is read.
pub proof fn lemma_braces_are_ignored(s: Seq<char>)
    ensures
        parse_id_spec(seq!['{'] + s + seq!['}']) == parse_id_spec(s),
{
    let (open, close) = (seq!['{'], seq!['}']);
    assert(strip_id_punctuation(open) =~= Seq::<char>::empty()) by {
        assert(open.drop_last() =~= Seq::<char>::empty());
        assert(strip_id_punctuation(Seq::<char>::empty()) =~= Seq::<char>::empty());
    }
    assert(strip_id_punctuation(close) =~= Seq::<char>::empty()) by {
        assert(close.drop_last() =~= Seq::<char>::empty());
        assert(strip_id_punctuation(Seq::<char>::empty()) =~= Seq::<char>::empty());
    }
    lemma_strip_concat(open, s);
    lemma_strip_concat(open + s, close);
    assert(strip_id_punctuation(open + s + close) =~= strip_id_punctuation(s));
}

/// `s` with its hexadecimal letters written in upper case.
pub open spec fn upper_hex(s: Seq<char>) -> Seq<char> {
    Seq::new(s.len(), |i: int| if 'a' <= s[i] && s[i] <= 'f' { ((s[i] as int) - 32) as char } else { s[i] })
}

proof fn lemma_strip_upper(s: Seq<char>)
    ensures
        strip_id_punctuation(upper_hex(s)) == upper_hex(strip_id_punctuation(s)),
    decreases s.len(),
{
    if s.len() == 0 {
        assert(upper_hex(s) =~= Seq::<char>::empty());
        assert(upper_hex(Seq::<char>::empty()) =~= Seq::<char>::empty());
    } else {
        lemma_strip_upper(s.drop_last());
        assert(upper_hex(s).drop_last() =~= upper_hex(s.drop_last()));
        let c = s.last();
        let u = upper_hex(s).last();
        assert(kept_in_id(u) == kept_in_id(c));
        if kept_in_id(c) {
            assert(upper_hex(strip_id_punctuation(s.drop_last()) + seq![c]) =~= upper_hex(
                strip_id_punctuation(s.drop_last()),
            ) + seq![u]);
        } else {
            assert(strip_id_punctuation(s.drop_last()) + Seq::<char>::empty() =~= strip_id_punctuation(
                s.drop_last(),
            ));
            assert(strip_id_punctuation(upper_hex(s).drop_last()) + Seq::<char>::empty()
                =~= strip_id_punctuation(upper_hex(s).drop_last()));
        }
    }
}

/// An identifier's text reads the same with its letters in upper case.
pub proof fn lemma_upper_case_reads_the_same(s: Seq<char>)
    ensures
        parse_id_spec(upper_hex(s)) == parse_id_spec(s),
{
    lemma_strip_upper(s);
    let c = strip_id_punctuation(s);
    let u = strip_id_punctuation(upper_hex(s));
    assert(u == upper_hex(c));
    assert forall|k: int| 0 <= k < c.len() implies is_hex_char(#[trigger] u[k]) == is_hex_char(c[k])
        && (is_hex_char(c[k]) ==> hex_value(u[k]) == hex_value(c[k])) by {}
    if c.len() == 32 && forall|k: int| 0 <= k < 32 ==> is_hex_char(#[trigger] c[k]) {
        assert(forall|k: int| 0 <= k < 32 ==> is_hex_char(#[trigger] u[k]));
        assert(parse_id_spec(upper_hex(s)).unwrap() =~= parse_id_spec(s).unwrap());
    } else if c.len() == 32 {
        let k = choose|k: int| 0 <= k < 32 && !is_hex_char(#[trigger] c[k]);
        assert(!is_hex_char(u[k]));
    }
}

/// Reading an identifier's textual form gives back the identifier.
pub proof fn lemma_id_text_round_trip(id: PlaylistId)
    ensures
        parse_id_spec(id_text(id.bytes())) == Some(id.bytes()),
{
    let b = id.bytes();
    assert(b.len() == 16);
    let d = hex_digits(b);
    assert forall|k: int| 0 <= k < d.len() implies kept_in_id(#[trigger] d[k]) && is_hex_char(d[k]) by {
        let v = if k % 2 == 0 {
            b[k / 2] / 16
        } else {
            b[k / 2] % 16
        };
        lemma_digit_round_trip(v as int);
    }
    let dash = seq!['-'];
    assert(strip_id_punctuation(dash) =~= Seq::<char>::empty()) by {
        assert(dash.drop_last() =~= Seq::<char>::empty());
        assert(strip_id_punctuation(Seq::<char>::empty()) =~= Seq::<char>::empty());
        assert(dash.last() == '-');
    }
    let p0 = d.subrange(0, 8);
    let p1 = d.subrange(8, 12);
    let p2 = d.subrange(12, 16);
    let p3 = d.subrange(16, 20);
    let p4 = d.subrange(20, 32);
    lemma_strip_keeps_digits(p0);
    lemma_strip_keeps_digits(p1);
    lemma_strip_keeps_digits(p2);
    lemma_strip_keeps_digits(p3);
    lemma_strip_keeps_digits(p4);
    lemma_strip_concat(p0, dash);
    lemma_strip_concat(p0 + dash, p1);
    lemma_strip_concat(p0 + dash + p1, dash);
    lemma_strip_concat(p0 + dash + p1 + dash, p2);
    lemma_strip_concat(p0 + dash + p1 + dash + p2, dash);
    lemma_strip_concat(p0 + dash + p1 + dash + p2 + dash, p3);
    lemma_strip_concat(p0 + dash + p1 + dash + p2 + dash + p3, dash);
    lemma_strip_concat(p0 + dash + p1 + dash + p2 + dash + p3 + dash, p4);
    let c = strip_id_punctuation(id_text(b));
    assert(c =~= d);
    assert forall|i: int| 0 <= i < 16 implies ((hex_value(c[2 * i]) * 16 + hex_value(c[2 * i + 1])) as u8) == b[i] by {
        lemma_digit_round_trip((b[i] / 16) as int);
        lemma_digit_round_trip((b[i] % 16) as int);
        assert((2 * i) % 2 == 0);
        assert((2 * i + 1) % 2 == 1);
        assert((2 * i) / 2 == i);
        assert((2 * i + 1) / 2 == i);
    }
    assert(parse_id_spec(id_text(b)).unwrap() =~= b);
}

/// Whether a call changed anything.
#[derive(Debug, Clone, Copy, PartialEq, Eq, Structural)]
pub enum Mutated {
    Yes,
    No,
}

/// `songs` without any occurrence of `song`.
pub open spec fn without_song(songs: Seq<SongId>, song: SongId) -> Seq<SongId>
    decreases songs.len(),
{
    if songs.len() == 0 {
        Seq::empty()
    } else {
        without_song(songs.drop_last(), song) + if songs.last() == song {
            Seq::empty()
        } else {
            seq![songs.last()]
        }
    }
}

/// The characters of `s`, each replaced by its lower-case mapping.
pub open spec fn lowercase_chars(s: Seq<char>) -> Seq<char>
    decreases s.len(),
{
    if s.len() == 0 {
        Seq::empty()
    } else {
        lowercase_chars(s.drop_last()) + char_lowercase(s.last())
    }
}

/// The saturating sum of the scores of `terms` against `name`, or `None`
/// when one term does not match.
pub open spec fn terms_total(terms: Seq<Seq<char>>, name: Seq<char>) -> Option<u32>
    decreases terms.len(),
{
    if terms.len() == 0 {
        Some(0)
    } else {
        match (terms_total(terms.drop_last(), name), fuzzy_score(terms.last(), name)) {
            (Some(total), Some(s)) => Some(sat_add(total, s)),
            _ => None,
        }
    }
}

/// What a playlist holds.
pub struct PlaylistView {
    pub id: PlaylistId,
    pub name: Seq<char>,
    pub songs: Seq<SongId>,
}

/// A named list of songs.
#[derive(Debug)]
pub struct Playlist {
    id: PlaylistId,
    name: String,
    songs: Vec<SongId>,
}

impl View for Playlist {
    type V = PlaylistView;

    closed spec fn view(&self) -> PlaylistView {
        PlaylistView { id: self.id, name: self.name@, songs: self.songs@ }
    }
}

impl Playlist {
    /// An empty playlist.
    pub fn new(id: PlaylistId, name: &str) -> (r: Playlist)
        ensures
            r@ == (PlaylistView { id, name: name@, songs: Seq::empty() }),
    {
        Playlist { id, name: name.to_string(), songs: Vec::new() }
    }

    /// A playlist with the given songs, as read back from storage.
    pub fn from_parts(id: PlaylistId, name: String, songs: Vec<SongId>) -> (r: Playlist)
        ensures
            r@ == (PlaylistView { id, name: name@, songs: songs@ }),
    {
        Playlist { id, name, songs }
    }

    /// A copy of this playlist.
    pub fn duplicate(&self) -> (r: Playlist)
        ensures
            r@ == self@,
    {
        let mut songs: Vec<SongId> = Vec::new();
        let mut i: usize = 0;
        while i < self.songs.len()
            invariant
                i <= self.songs@.len(),
                songs@ == self.songs@.take(i as int),
            decreases self.songs@.len() - i,
        {
            songs.push(self.songs[i]);
            i = i + 1;
            assert(songs@ =~= self.songs@.take(i as int));
        }
        assert(self.songs@.take(self.songs@.len() as int) =~= self.songs@);
        Playlist { id: self.id, name: self.name.as_str().to_string(), songs }
    }

    pub fn id(&self) -> (r: PlaylistId)
        ensures
            r == self@.id,
    {
        self.id
    }

    pub fn name(&self) -> (r: &str)
        ensures
            r@ == self@.name,
    {
        self.name.as_str()
    }

    /// Gives the playlist a new name.
    pub fn rename(&mut self, name: &str)
        ensures
            final(self)@ == (PlaylistView { name: name@, ..old(self)@ }),
    {
        self.name = name.to_string();
    }

    pub fn songs(&self) -> (r: &[SongId])
        ensures
            r@ == self@.songs,
    {
        self.songs.as_slice()
    }

    pub fn len(&self) -> (r: usize)
        ensures
            r == self@.songs.len(),
    {
        self.songs.len()
    }

    pub fn is_empty(&self) -> (r: bool)
        ensures
            r == (self@.songs.len() == 0),
    {
        self.songs.len() == 0
    }

    /// Appends `song` unless the playlist already holds it.
    pub fn add(&mut self, song: SongId) -> (r: Mutated)
        ensures
            old(self)@.songs.contains(song) ==> r == Mutated::No && final(self)@ == old(self)@,
            !old(self)@.songs.contains(song) ==> r == Mutated::Yes && final(self)@ == (
            PlaylistView { songs: old(self)@.songs.push(song), ..old(self)@ }),
    {
        if self.contains(song) {
            return Mutated::No;
        }
        self.songs.push(song);
        Mutated::Yes
    }

    /// Removes every occurrence of `song`.
    pub fn remove_all(&mut self, song: SongId)
        ensures
            final(self)@ == (PlaylistView {
                songs: without_song(old(self)@.songs, song),
                ..old(self)@
            }),
    {
        let mut kept: Vec<SongId> = Vec::new();
        let mut i: usize = 0;
        while i < self.songs.len()
            invariant
                i <= self.songs@.len(),
                kept@ == without_song(self.songs@.take(i as int), song),
            decreases self.songs@.len() - i,
        {
            if self.songs[i] != song {
                kept.push(self.songs[i]);
            }
            i = i + 1;
            assert(self.songs@.take(i as int).drop_last() =~= self.songs@.take(i - 1));
        }
        assert(self.songs@.take(self.songs@.len() as int) =~= self.songs@);
        self.songs = kept;
    }

    /// Whether the playlist holds `song`.
    pub fn contains(&self, song: SongId) -> (r: bool)
        ensures
            r == self@.songs.contains(song),
    {
        let mut i: usize = 0;
        while i < self.songs.len()
            invariant
                i <= self.songs@.len(),
                forall|q: int| 0 <= q < i ==> self.songs@[q] != song,
            decreases self.songs@.len() - i,
        {
            if self.songs[i] == song {
                return true;
            }
            i = i + 1;
        }
        false
    }

    /// How well the playlist's name matches every term of `query`: the
    /// saturating sum of the terms' scores, or `None` when one term does not
    /// match.
    pub fn fuzzy_score(&self, query: &FuzzyQuery) -> (r: Option<u32>)
        ensures
            r == terms_total(query.terms_view(), normalized(self@.name)),
    {
        let name = Candidate::new(self.name.as_str());
        let terms = query.terms();
        let ghost tv = query.terms_view();
        let mut total: u32 = 0;
        let mut k: usize = 0;
        while k < terms.len()
            invariant
                k <= terms@.len(),
                pattern_views(terms@) == tv,
                tv == query.terms_view(),
                name@ == normalized(self@.name),
                terms_total(tv.take(k as int), name@) == Some(total),
            decreases terms@.len() - k,
        {
            assert(tv.take(k + 1).drop_last() =~= tv.take(k as int));
            assert(tv.take(k + 1).last() == terms@[k as int]@);
            match score(&terms[k], &name) {
                Some(s) => {
                    total = total.saturating_add(s);
                },
                None => {
                    proof {
                        assert(fuzzy_score(tv.take(k + 1).last(), name@) is None);
                        assert(terms_total(tv.take(k + 1), name@) is None);
                        lemma_total_fails_later(tv, name@, k + 1);
                    }
                    return None;
                },
            }
            k = k + 1;
        }
        assert(tv.take(terms@.len() as int) =~= tv);
        Some(total)
    }

    /// The name in lower case, character by character: the key playlists
    /// are sorted by.
    pub fn sort_name(&self) -> (r: String)
        ensures
            r@ == lowercase_chars(self@.name),
    {
        let chars = chars_of(self.name.as_str());
        let mut out: Vec<char> = Vec::new();
        let mut i: usize = 0;
        while i < chars.len()
            invariant
                i <= chars@.len(),
                chars@ == self@.name,
                out@ == lowercase_chars(chars@.take(i as int)),
            decreases chars@.len() - i,
        {
            let lower = lowercase_of(chars[i]);
            let ghost before = out@;
            let mut j: usize = 0;
            while j < lower.len()
                invariant
                    j <= lower@.len(),
                    out@ == before + lower@.take(j as int),
                decreases lower@.len() - j,
            {
                out.push(lower[j]);
                j = j + 1;
                assert(out@ =~= before + lower@.take(j as int));
            }
            assert(lower@.take(lower@.len() as int) =~= lower@);
            i = i + 1;
            assert(chars@.take(i as int).drop_last() =~= chars@.take(i - 1));
        }
        assert(chars@.take(chars@.len() as int) =~= chars@);
        string_from_chars(&out)
    }

    /// Keeps only the songs that occur in `known`, in their order.
    pub fn retain_songs(&mut self, known: &[SongId])
        ensures
            final(self)@ == (PlaylistView {
                songs: known_songs(old(self)@.songs, known@),
                ..old(self)@
            }),
    {
        let mut kept: Vec<SongId> = Vec::new();
        let mut i: usize = 0;
        while i < self.songs.len()
            invariant
                i <= self.songs@.len(),
                kept@ == known_songs(self.songs@.take(i as int), known@),
            decreases self.songs@.len() - i,
        {
            let song = self.songs[i];
            if contains_song(known, song) {
                kept.push(song);
            }
            i = i + 1;
            assert(self.songs@.take(i as int).drop_last() =~= self.songs@.take(i - 1));
        }
        assert(self.songs@.take(self.songs@.len() as int) =~= self.songs@);
        self.songs = kept;
    }
}

/// Whether `song` occurs in `songs`.
fn contains_song(songs: &[SongId], song: SongId) -> (r: bool)
    ensures
        r == songs@.contains(song),
{
    let mut i: usize = 0;
    while i < songs.len()
        invariant
            i <= songs@.len(),
            forall|q: int| 0 <= q < i ==> songs@[q] != song,
        decreases songs@.len() - i,
    {
        if songs[i] == song {
            return true;
        }
        i = i + 1;
    }
    false
}

/// The songs of `songs` that occur in `known`, in order.
pub open spec fn known_songs(songs: Seq<SongId>, known: Seq<SongId>) -> Seq<SongId>
    decreases songs.len(),
{
    if songs.len() == 0 {
        Seq::empty()
    } else {
        known_songs(songs.drop_last(), known) + if known.contains(songs.last()) {
            seq![songs.last()]
        } else {
            Seq::empty()
        }
    }
}

proof fn lemma_total_fails_later(terms: Seq<Seq<char>>, name: Seq<char>, n: int)
    requires
        0 < n <= terms.len(),
        terms_total(terms.take(n), name) is None,
    ensures
        terms_total(terms, name) is None,
    decreases terms.len() - n,
{
    if n < terms.len() {
        assert(terms.take(n + 1).drop_last() =~= terms.take(n));
        lemma_total_fails_later(terms, name, n + 1);
    } else {
        assert(terms.take(n) =~= terms);
    }
}

/// Whether two identifiers are the same, byte by byte.
pub(crate) fn same_id(a: &PlaylistId, b: &PlaylistId) -> (r: bool)
    ensures
        r == (*a == *b),
{
    let mut i: usize = 0;
    while i < 16
        invariant
            i <= 16,
            forall|q: int| 0 <= q < i ==> a.0[q] == b.0[q],
        decreases 16 - i,
    {
        if a.0[i] != b.0[i] {
            return false;
        }
        i = i + 1;
    }
    assert(a.0 =~= b.0);
    true
}
// ---------------------------------------------------------------------
// The order playlists are listed in.

/// Strict lexicographic order on sequences of integers (a proper prefix
/// comes first).
pub open spec fn seq_less(a: Seq<int>, b: Seq<int>) -> bool
    decreases a.len(),
{
    if b.len() == 0 {
        false
    } else if a.len() == 0 {
        true
    } else if a[0] != b[0] {
        a[0] < b[0]
    } else {
        seq_less(a.drop_first(), b.drop_first())
    }
}

/// The code points of `s`.
pub open spec fn char_codes(s: Seq<char>) -> Seq<int> {
    Seq::new(s.len(), |i: int| s[i] as int)
}

/// The bytes of an identifier, as integers.
pub open spec fn id_codes(id: PlaylistId) -> Seq<int> {
    Seq::new(id.bytes().len(), |i: int| id.bytes()[i] as int)
}

/// What playlists are sorted by: the name in lower case.
pub open spec fn sort_key(p: PlaylistView) -> Seq<char> {
    str_lowercase(p.name)
}

/// Whether a playlist with lower-case name `an` and identifier `aid` is
/// listed before one with `bn` and `bid`: by name, then by identifier.
pub open spec fn key_before(an: Seq<char>, aid: PlaylistId, bn: Seq<char>, bid: PlaylistId) -> bool {
    seq_less(char_codes(an), char_codes(bn)) || (an == bn && seq_less(id_codes(aid), id_codes(bid)))
}

/// Whether `a` is listed before `b`.
pub open spec fn listed_before(a: PlaylistView, b: PlaylistView) -> bool {
    key_before(sort_key(a), a.id, sort_key(b), b.id)
}

/// `sorted` lists each playlist of `map` once, in the listing order.
pub open spec fn sorted_listing(map: Map<PlaylistId, PlaylistView>, sorted: Seq<PlaylistId>) -> bool {
    &&& forall|id: PlaylistId| #[trigger] sorted.contains(id) <==> map.contains_key(id)
    &&& forall|i: int, j: int|
        0 <= i < j < sorted.len() ==> listed_before(map[#[trigger] sorted[i]], map[#[trigger] sorted[j]])
}

pub(crate) proof fn lemma_seq_less_irreflexive(a: Seq<int>)
    ensures
        !seq_less(a, a),
    decreases a.len(),
{
    if a.len() > 0 {
        lemma_seq_less_irreflexive(a.drop_first());
    }
}

pub(crate) proof fn lemma_seq_less_transitive(a: Seq<int>, b: Seq<int>, c: Seq<int>)
    requires
        seq_less(a, b),
        seq_less(b, c),
    ensures
        seq_less(a, c),
    decreases a.len(),
{
    if a.len() > 0 && b.len() > 0 && c.len() > 0 && a[0] == b[0] && b[0] == c[0] {
        lemma_seq_less_transitive(a.drop_first(), b.drop_first(), c.drop_first());
    }
}

pub(crate) proof fn lemma_seq_less_total(a: Seq<int>, b: Seq<int>)
    requires
        a != b,
    ensures
        seq_less(a, b) || seq_less(b, a),
    decreases a.len(),
{
    if a.len() > 0 && b.len() > 0 && a[0] == b[0] {
        if a.drop_first() == b.drop_first() {
            assert(a =~= seq![a[0]] + a.drop_first());
            assert(b =~= seq![b[0]] + b.drop_first());
        }
        lemma_seq_less_total(a.drop_first(), b.drop_first());
    } else if a.len() == 0 && b.len() == 0 {
        assert(a =~= b);
    }
}

proof fn lemma_char_codes_injective(a: Seq<char>, b: Seq<char>)
    requires
        char_codes(a) == char_codes(b),
    ensures
        a == b,
{
    assert(char_codes(a).len() == char_codes(b).len());
    assert(char_codes(a).len() == a.len() && char_codes(b).len() == b.len());
    assert forall|i: int| 0 <= i < a.len() implies a[i] == b[i] by {
        assert(char_codes(a)[i] == char_codes(b)[i]);
        assert(char_codes(a).len() == a.len());
        assert(char_codes(a)[i] == a[i] as int);
        assert(char_codes(b)[i] == b[i] as int);
        assert(a[i] as int == b[i] as int);
    }
    assert(a =~= b);
}

proof fn lemma_id_codes_injective(a: PlaylistId, b: PlaylistId)
    requires
        id_codes(a) == id_codes(b),
    ensures
        a == b,
{
    assert(id_codes(a).len() == id_codes(b).len());
    assert forall|i: int| 0 <= i < 16 implies a.0[i] == b.0[i] by {
        assert(id_codes(a)[i] == id_codes(b)[i]);
        assert(id_codes(a)[i] == a.bytes()[i] as int);
        assert(a.bytes()[i] == b.bytes()[i]);
        assert(a.0@[i] == b.0@[i]);
    }
    assert(a.0 =~= b.0);
}

/// The listing order is a strict total order on playlists with distinct
/// identifiers.
proof fn lemma_key_order(an: Seq<char>, aid: PlaylistId, bn: Seq<char>, bid: PlaylistId)
    ensures
        !key_before(an, aid, an, aid),
        key_before(an, aid, bn, bid) ==> !key_before(bn, bid, an, aid),
        aid != bid ==> key_before(an, aid, bn, bid) || key_before(bn, bid, an, aid),
{
    lemma_seq_less_irreflexive(char_codes(an));
    lemma_seq_less_irreflexive(id_codes(aid));
    if seq_less(char_codes(an), char_codes(bn)) && seq_less(char_codes(bn), char_codes(an)) {
        lemma_seq_less_transitive(char_codes(an), char_codes(bn), char_codes(an));
    }
    if seq_less(char_codes(an), char_codes(bn)) && bn == an {
        lemma_seq_less_irreflexive(char_codes(an));
    }
    if seq_less(id_codes(aid), id_codes(bid)) && seq_less(id_codes(bid), id_codes(aid)) {
        lemma_seq_less_transitive(id_codes(aid), id_codes(bid), id_codes(aid));
    }
    if aid != bid {
        if an != bn {
            if char_codes(an) == char_codes(bn) {
                lemma_char_codes_injective(an, bn);
            }
            lemma_seq_less_total(char_codes(an), char_codes(bn));
        } else {
            if id_codes(aid) == id_codes(bid) {
                lemma_id_codes_injective(aid, bid);
            }
            lemma_seq_less_total(id_codes(aid), id_codes(bid));
        }
    }
}

proof fn lemma_key_transitive(
    an: Seq<char>,
    aid: PlaylistId,
    bn: Seq<char>,
    bid: PlaylistId,
    cn: Seq<char>,
    cid: PlaylistId,
)
    requires
        key_before(an, aid, bn, bid),
        key_before(bn, bid, cn, cid),
    ensures
        key_before(an, aid, cn, cid),
{
    if seq_less(char_codes(an), char_codes(bn)) && seq_less(char_codes(bn), char_codes(cn)) {
        lemma_seq_less_transitive(char_codes(an), char_codes(bn), char_codes(cn));
    } else if an == bn && bn == cn {
        lemma_seq_less_transitive(id_codes(aid), id_codes(bid), id_codes(cid));
    }
}

// ---------------------------------------------------------------------
// Playlists kept in a vector, seen as a map from identifier.

/// The playlists of `s` by identifier.
pub open spec fn playlist_map(s: Seq<Playlist>) -> Map<PlaylistId, PlaylistView>
    decreases s.len(),
{
    if s.len() == 0 {
        Map::empty()
    } else {
        playlist_map(s.drop_last()).insert(s.last()@.id, s.last()@)
    }
}

/// No two playlists of `s` share an identifier.
pub open spec fn distinct_ids(s: Seq<Playlist>) -> bool {
    forall|i: int, j: int| 0 <= i < j < s.len() ==> (#[trigger] s[i])@.id != (#[trigger] s[j])@.id
}

proof fn lemma_map_contents(s: Seq<Playlist>)
    requires
        distinct_ids(s),
    ensures
        forall|id: PlaylistId|
            playlist_map(s).contains_key(id) <==> exists|i: int| 0 <= i < s.len() && (#[trigger] s[i])@.id == id,
        forall|i: int| 0 <= i < s.len() ==> playlist_map(s)[(#[trigger] s[i])@.id] == s[i]@,
    decreases s.len(),
{
    if s.len() > 0 {
        let t = s.drop_last();
        assert(distinct_ids(t));
        lemma_map_contents(t);
        assert forall|id: PlaylistId|
            playlist_map(s).contains_key(id) <==> exists|i: int| 0 <= i < s.len() && (#[trigger] s[i])@.id == id by {
            if playlist_map(t).contains_key(id) {
                let i = choose|i: int| 0 <= i < t.len() && (#[trigger] t[i])@.id == id;
                assert(s[i] == t[i]);
            }
            if exists|i: int| 0 <= i < s.len() && (#[trigger] s[i])@.id == id {
                let i = choose|i: int| 0 <= i < s.len() && (#[trigger] s[i])@.id == id;
                if i < s.len() - 1 {
                    assert(t[i] == s[i]);
                }
            }
        }
        assert forall|i: int| 0 <= i < s.len() implies playlist_map(s)[(#[trigger] s[i])@.id] == s[i]@ by {
            if i < s.len() - 1 {
                assert(t[i] == s[i]);
                assert(s[i]@.id != s[s.len() - 1]@.id);
            }
        }
    }
}

proof fn lemma_map_update(s: Seq<Playlist>, i: int, p: Playlist)
    requires
        distinct_ids(s),
        0 <= i < s.len(),
        p@.id == s[i]@.id,
    ensures
        distinct_ids(s.update(i, p)),
        playlist_map(s.update(i, p)) == playlist_map(s).insert(p@.id, p@),
{
    let u = s.update(i, p);
    assert(distinct_ids(u)) by {
        assert forall|a: int, b: int| 0 <= a < b < u.len() implies (#[trigger] u[a])@.id != (#[trigger] u[b])@.id by {
            assert(s[a]@.id != s[b]@.id);
        }
    }
    lemma_map_contents(s);
    lemma_map_contents(u);
    assert forall|id: PlaylistId| #[trigger] playlist_map(u).contains_key(id) <==> playlist_map(s).insert(p@.id, p@).contains_key(id) by {
        if exists|k: int| 0 <= k < s.len() && (#[trigger] s[k])@.id == id {
            let k = choose|k: int| 0 <= k < s.len() && (#[trigger] s[k])@.id == id;
            if k != i {
                assert(u[k] == s[k]);
            } else {
                assert(u[i] == p);
            }
        }
        if exists|k: int| 0 <= k < u.len() && (#[trigger] u[k])@.id == id {
            let k = choose|k: int| 0 <= k < u.len() && (#[trigger] u[k])@.id == id;
            if k != i {
                assert(u[k] == s[k]);
            }
        }
    }
    assert forall|id: PlaylistId| #[trigger] playlist_map(u).contains_key(id) implies playlist_map(u)[id] == playlist_map(s).insert(p@.id, p@)[id] by {
        let k = choose|k: int| 0 <= k < u.len() && (#[trigger] u[k])@.id == id;
        if k != i {
            assert(u[k] == s[k]);
        } else {
            assert(u[i] == p);
        }
    }
    assert(playlist_map(u) =~= playlist_map(s).insert(p@.id, p@));
}

proof fn lemma_map_remove(s: Seq<Playlist>, i: int)
    requires
        distinct_ids(s),
        0 <= i < s.len(),
    ensures
        distinct_ids(s.remove(i)),
        playlist_map(s.remove(i)) == playlist_map(s).remove(s[i]@.id),
{
    let u = s.remove(i);
    assert(distinct_ids(u)) by {
        assert forall|a: int, b: int| 0 <= a < b < u.len() implies (#[trigger] u[a])@.id != (#[trigger] u[b])@.id by {
            let sa = if a < i { a } else { a + 1 };
            let sb = if b < i { b } else { b + 1 };
            assert(u[a] == s[sa]);
            assert(u[b] == s[sb]);
        }
    }
    lemma_map_contents(s);
    lemma_map_contents(u);
    let gone = s[i]@.id;
    assert forall|id: PlaylistId| #[trigger] playlist_map(u).contains_key(id) <==> playlist_map(s).remove(gone).contains_key(id) by {
        if exists|k: int| 0 <= k < s.len() && (#[trigger] s[k])@.id == id {
            let k = choose|k: int| 0 <= k < s.len() && (#[trigger] s[k])@.id == id;
            if k < i {
                assert(u[k] == s[k]);
            } else if k > i {
                assert(u[k - 1] == s[k]);
            }
        }
        if exists|k: int| 0 <= k < u.len() && (#[trigger] u[k])@.id == id {
            let k = choose|k: int| 0 <= k < u.len() && (#[trigger] u[k])@.id == id;
            let sk = if k < i { k } else { k + 1 };
            assert(u[k] == s[sk]);
        }
    }
    assert forall|id: PlaylistId| #[trigger] playlist_map(u).contains_key(id) implies playlist_map(u)[id] == playlist_map(s).remove(gone)[id] by {
        let k = choose|k: int| 0 <= k < u.len() && (#[trigger] u[k])@.id == id;
        let sk = if k < i { k } else { k + 1 };
        assert(u[k] == s[sk]);
    }
    assert(playlist_map(u) =~= playlist_map(s).remove(gone));
}

// ---------------------------------------------------------------------
// The index of which playlists hold a song.

/// The identifiers of `sorted`, in order, whose playlist holds `song`.
pub open spec fn members_in(
    sorted: Seq<PlaylistId>,
    map: Map<PlaylistId, PlaylistView>,
    song: SongId,
) -> Seq<PlaylistId>
    decreases sorted.len(),
{
    if sorted.len() == 0 {
        Seq::empty()
    } else {
        members_in(sorted.drop_last(), map, song) + if map[sorted.last()].songs.contains(song) {
            seq![sorted.last()]
        } else {
            Seq::empty()
        }
    }
}

/// The entry of the index for `song`; none is an empty entry.
pub open spec fn entry_of(index: Map<u64, Vec<PlaylistId>>, song: SongId) -> Seq<PlaylistId> {
    if index.contains_key(song.raw_value()) {
        index[song.raw_value()]@
    } else {
        Seq::empty()
    }
}

proof fn lemma_members_in(sorted: Seq<PlaylistId>, map: Map<PlaylistId, PlaylistView>, song: SongId)
    requires
        sorted.no_duplicates(),
    ensures
        forall|pid: PlaylistId|
            #[trigger] members_in(sorted, map, song).contains(pid) <==> (sorted.contains(pid)
                && map[pid].songs.contains(song)),
        members_in(sorted, map, song).no_duplicates(),
    decreases sorted.len(),
{
    if sorted.len() > 0 {
        let t = sorted.drop_last();
        assert(t.no_duplicates());
        lemma_members_in(t, map, song);
        let m = members_in(t, map, song);
        let last = sorted.last();
        assert(!t.contains(last));
        assert forall|pid: PlaylistId|
            #[trigger] members_in(sorted, map, song).contains(pid) <==> (sorted.contains(pid)
                && map[pid].songs.contains(song)) by {
            if sorted.contains(pid) && pid != last {
                let k = choose|k: int| 0 <= k < sorted.len() && sorted[k] == pid;
                assert(t[k] == pid);
            }
            if t.contains(pid) {
                let k = choose|k: int| 0 <= k < t.len() && t[k] == pid;
                assert(sorted[k] == pid);
            }
            if map[last].songs.contains(song) {
                assert(members_in(sorted, map, song) == m.push(last));
                assert(m.push(last)[m.len() as int] == last);
                if m.push(last).contains(pid) && pid != last {
                    let k = choose|k: int| 0 <= k < m.push(last).len() && m.push(last)[k] == pid;
                    assert(m[k] == pid);
                }
                if m.contains(pid) {
                    let k = choose|k: int| 0 <= k < m.len() && m[k] == pid;
                    assert(m.push(last)[k] == pid);
                }
            } else {
                assert(members_in(sorted, map, song) =~= m);
            }
        }
        if map[last].songs.contains(song) {
            assert(members_in(sorted, map, song) =~= m.push(last));
            assert(!m.contains(last));
            assert forall|a: int, b: int|
                0 <= a < b < m.push(last).len() implies m.push(last)[a] != m.push(last)[b] by {
                if b == m.len() {
                    assert(m.contains(m[a]));
                }
            }
        } else {
            assert(members_in(sorted, map, song) =~= m);
        }
    }
}

proof fn lemma_sorted_no_duplicates(map: Map<PlaylistId, PlaylistView>, sorted: Seq<PlaylistId>)
    requires
        sorted_listing(map, sorted),
    ensures
        sorted.no_duplicates(),
{
    assert forall|a: int, b: int| 0 <= a < b < sorted.len() implies sorted[a] != sorted[b] by {
        assert(listed_before(map[sorted[a]], map[sorted[b]]));
        let v = map[sorted[a]];
        lemma_key_order(sort_key(v), v.id, sort_key(v), v.id);
    }
}

/// The standard library's monotonic clock reading, carried through as it is.
#[verifier::external_type_specification]
#[verifier::external_body]
pub struct ExInstant(Instant);

/// Trusted: `Instant::now`. Nothing is promised of the instant.
#[verifier::external_body]
fn now() -> Instant {
    Instant::now()
}

/// Trusted: `Instant::elapsed`, in whole milliseconds. Nothing is promised
/// of the value, which depends on the clock.
#[verifier::external_body]
fn millis_since(start: &Instant) -> u128 {
    start.elapsed().as_millis()
}

/// How long, in milliseconds, a change may wait before the store is due to
/// be saved.
pub const FLUSH_AFTER_MILLIS: u128 = 750;

/// What became of a request to save the store.
#[derive(Debug, Clone, PartialEq, Eq)]
pub enum SaveOutcome {
    Saved,
    NothingToSave,
    Failed(String),
}

/// What loading a store found.
#[derive(Debug, Default, Clone)]
pub struct PruneStats {
    pub playlists_loaded: usize,
    pub songs_removed: usize,
    pub warnings: Vec<String>,
}

/// The next revision number, wrapping.
pub open spec fn next_revision(r: u64) -> u64 {
    if r == u64::MAX {
        0
    } else {
        (r + 1) as u64
    }
}

/// Every change moves the revision number to a new value, even past the
/// largest one.
pub proof fn lemma_revision_always_moves(r: u64)
    ensures
        next_revision(r) != r,
{
}

/// All playlists, the order they are listed in, which playlists hold each
/// song, a revision number that moves on every change, and whether there
/// are changes not yet saved.
pub struct PlaylistStore {
    path: String,
    playlists: Vec<Playlist>,
    sorted_ids: Vec<PlaylistId>,
    membership: HashMap<u64, Vec<PlaylistId>>,
    revision: u64,
    dirty: bool,
    dirty_since: Option<Instant>,
}

/// Finds the playlist with identifier `id`.
fn find_index(playlists: &Vec<Playlist>, id: &PlaylistId) -> (r: Option<usize>)
    requires
        distinct_ids(playlists@),
    ensures
        match r {
            Some(i) => i < playlists@.len() && playlists@[i as int]@.id == *id
                && playlist_map(playlists@).contains_key(*id)
                && playlist_map(playlists@)[*id] == playlists@[i as int]@,
            None => !playlist_map(playlists@).contains_key(*id),
        },
{
    proof {
        lemma_map_contents(playlists@);
    }
    let mut i: usize = 0;
    while i < playlists.len()
        invariant
            i <= playlists@.len(),
            distinct_ids(playlists@),
            forall|q: int| 0 <= q < i ==> playlists@[q]@.id != *id,
        decreases playlists@.len() - i,
    {
        if same_id(&playlists[i].id, id) {
            proof {
                lemma_map_contents(playlists@);
                assert(playlist_map(playlists@)[playlists@[i as int]@.id] == playlists@[i as int]@);
            }
            return Some(i);
        }
        i = i + 1;
    }
    proof {
        lemma_map_contents(playlists@);
    }
    None
}

/// Whether `id` occurs in `ids`.
fn contains_id(ids: &Vec<PlaylistId>, id: &PlaylistId) -> (r: bool)
    ensures
        r == ids@.contains(*id),
{
    let mut i: usize = 0;
    while i < ids.len()
        invariant
            i <= ids@.len(),
            forall|q: int| 0 <= q < i ==> ids@[q] != *id,
        decreases ids@.len() - i,
    {
        if same_id(&ids[i], id) {
            return true;
        }
        i = i + 1;
    }
    false
}

/// Whether the playlist keyed `(an, aid)` is listed before `(bn, bid)`.
fn listed_first(an: &Vec<char>, aid: &PlaylistId, bn: &Vec<char>, bid: &PlaylistId) -> (r: bool)
    ensures
        r == key_before(an@, *aid, bn@, *bid),
{
    let ghost a = char_codes(an@);
    let ghost b = char_codes(bn@);
    assert(a.skip(0) =~= a);
    assert(b.skip(0) =~= b);
    let mut i: usize = 0;
    while i < an.len() && i < bn.len() && an[i] == bn[i]
        invariant
            i <= an@.len(),
            i <= bn@.len(),
            a == char_codes(an@),
            b == char_codes(bn@),
            an@.take(i as int) == bn@.take(i as int),
            seq_less(a, b) == seq_less(a.skip(i as int), b.skip(i as int)),
        decreases an@.len() - i,
    {
        assert(a.skip(i as int).drop_first() =~= a.skip(i + 1));
        assert(b.skip(i as int).drop_first() =~= b.skip(i + 1));
        i = i + 1;
        assert(an@.take(i as int) =~= an@.take(i - 1).push(an@[i - 1]));
        assert(bn@.take(i as int) =~= bn@.take(i - 1).push(bn@[i - 1]));
    }
    if i < an.len() && i < bn.len() {
        assert(a.skip(i as int)[0] == an@[i as int] as int);
        assert(b.skip(i as int)[0] == bn@[i as int] as int);
        proof {
            if an@ == bn@ {
                assert(an@[i as int] == bn@[i as int]);
            }
        }
        return an[i] < bn[i];
    }
    if i < bn.len() {
        proof {
            assert(a.skip(i as int).len() == 0);
            if an@ == bn@ {
                assert(false);
            }
        }
        return true;
    }
    if i < an.len() {
        proof {
            assert(b.skip(i as int).len() == 0);
            if an@ == bn@ {
                assert(false);
            }
        }
        return false;
    }
    assert(an@ =~= an@.take(i as int));
    assert(bn@ =~= bn@.take(i as int));
    assert(!seq_less(a.skip(i as int), b.skip(i as int)));
    let ghost x = id_codes(*aid);
    let ghost y = id_codes(*bid);
    assert(x.skip(0) =~= x);
    assert(y.skip(0) =~= y);
    let mut j: usize = 0;
    while j < 16 && aid.0[j] == bid.0[j]
        invariant
            j <= 16,
            x == id_codes(*aid),
            y == id_codes(*bid),
            x.len() == 16,
            y.len() == 16,
            seq_less(x, y) == seq_less(x.skip(j as int), y.skip(j as int)),
        decreases 16 - j,
    {
        assert(x.skip(j as int).drop_first() =~= x.skip(j + 1));
        assert(y.skip(j as int).drop_first() =~= y.skip(j + 1));
        j = j + 1;
    }
    if j < 16 {
        assert(x.skip(j as int)[0] == aid.bytes()[j as int] as int);
        assert(y.skip(j as int)[0] == bid.bytes()[j as int] as int);
        return aid.0[j] < bid.0[j];
    }
    assert(x.skip(16).len() == 0);
    false
}

/// Inserting a key at the first place whose key does not come before it
/// keeps a strictly ordered listing strictly ordered.
proof fn lemma_insert_sorted(
    keys: Seq<Seq<char>>,
    ids: Seq<PlaylistId>,
    pos: int,
    k: Seq<char>,
    id: PlaylistId,
)
    requires
        keys.len() == ids.len(),
        0 <= pos <= ids.len(),
        forall|a: int, b: int|
            0 <= a < b < ids.len() ==> key_before(
                #[trigger] keys[a],
                ids[a],
                #[trigger] keys[b],
                ids[b],
            ),
        forall|j: int| 0 <= j < pos ==> key_before(#[trigger] keys[j], ids[j], k, id),
        pos < ids.len() ==> !key_before(keys[pos], ids[pos], k, id),
        !ids.contains(id),
    ensures
        forall|a: int, b: int|
            0 <= a < b < ids.len() + 1 ==> key_before(
                #[trigger] keys.insert(pos, k)[a],
                ids.insert(pos, id)[a],
                #[trigger] keys.insert(pos, k)[b],
                ids.insert(pos, id)[b],
            ),
{
    keys.insert_ensures(pos, k);
    ids.insert_ensures(pos, id);
    let nk = keys.insert(pos, k);
    let ni = ids.insert(pos, id);
    if pos < ids.len() {
        assert(ids[pos] != id);
        lemma_key_order(keys[pos], ids[pos], k, id);
    }
    assert forall|a: int, b: int| 0 <= a < b < ids.len() + 1 implies key_before(
        #[trigger] nk[a],
        ni[a],
        #[trigger] nk[b],
        ni[b],
    ) by {
        if b < pos {
        } else if b == pos {
        } else if a < pos {
            assert(nk[b] == keys[b - 1] && ni[b] == ids[b - 1]);
            assert(key_before(keys[a], ids[a], keys[b - 1], ids[b - 1]));
        } else if a == pos {
            assert(nk[b] == keys[b - 1] && ni[b] == ids[b - 1]);
            if b - 1 > pos {
                assert(key_before(keys[pos], ids[pos], keys[b - 1], ids[b - 1]));
                lemma_key_transitive(k, id, keys[pos], ids[pos], keys[b - 1], ids[b - 1]);
            }
        } else {
            assert(nk[a] == keys[a - 1] && ni[a] == ids[a - 1]);
            assert(nk[b] == keys[b - 1] && ni[b] == ids[b - 1]);
            assert(key_before(keys[a - 1], ids[a - 1], keys[b - 1], ids[b - 1]));
        }
    }
}

/// The listing order of `playlists`.
fn sort_playlists(playlists: &Vec<Playlist>) -> (r: Vec<PlaylistId>)
    requires
        distinct_ids(playlists@),
    ensures
        sorted_listing(playlist_map(playlists@), r@),
{
    let ghost map = playlist_map(playlists@);
    proof {
        lemma_map_contents(playlists@);
    }
    let mut sorted: Vec<PlaylistId> = Vec::new();
    let mut keys: Vec<Vec<char>> = Vec::new();
    let ghost mut kv: Seq<Seq<char>> = Seq::empty();
    let mut i: usize = 0;
    while i < playlists.len()
        invariant
            i <= playlists@.len(),
            distinct_ids(playlists@),
            map == playlist_map(playlists@),
            forall|q: int| 0 <= q < playlists@.len() ==> map[(#[trigger] playlists@[q])@.id] == playlists@[q]@,
            forall|id: PlaylistId|
                map.contains_key(id) <==> exists|q: int| 0 <= q < playlists@.len() && (#[trigger] playlists@[q])@.id == id,
            keys@.len() == sorted@.len(),
            kv.len() == sorted@.len(),
            forall|j: int| 0 <= j < kv.len() ==> (#[trigger] keys@[j])@ == kv[j],
            forall|j: int|
                0 <= j < sorted@.len() ==> map.contains_key(#[trigger] sorted@[j]) && map[sorted@[j]].id
                    == sorted@[j] && kv[j] == sort_key(map[sorted@[j]]),
            forall|id: PlaylistId|
                #[trigger] sorted@.contains(id) <==> exists|q: int| 0 <= q < i && (#[trigger] playlists@[q])@.id == id,
            forall|a: int, b: int|
                0 <= a < b < sorted@.len() ==> key_before(
                    #[trigger] kv[a],
                    sorted@[a],
                    #[trigger] kv[b],
                    sorted@[b],
                ),
        decreases playlists@.len() - i,
    {
        let p = &playlists[i];
        let lower = lowercase_str(p.name());
        let k = chars_of(lower.as_str());
        let id = p.id();
        assert(map[id] == p@);
        assert(k@ == sort_key(map[id]));
        proof {
            if sorted@.contains(id) {
                let q = choose|q: int| 0 <= q < i && (#[trigger] playlists@[q])@.id == id;
                assert(playlists@[q]@.id != playlists@[i as int]@.id);
            }
        }
        let mut pos: usize = 0;
        while pos < sorted.len()
            invariant
                pos <= sorted@.len(),
                keys@.len() == sorted@.len(),
                kv.len() == sorted@.len(),
                forall|j: int| 0 <= j < kv.len() ==> (#[trigger] keys@[j])@ == kv[j],
                forall|j: int| 0 <= j < pos ==> key_before(#[trigger] kv[j], sorted@[j], k@, id),
            ensures
                pos <= sorted@.len(),
                forall|j: int| 0 <= j < pos ==> key_before(#[trigger] kv[j], sorted@[j], k@, id),
                pos < sorted@.len() ==> !key_before(kv[pos as int], sorted@[pos as int], k@, id),
            decreases sorted@.len() - pos,
        {
            if !listed_first(&keys[pos], &sorted[pos], &k, &id) {
                break;
            }
            pos = pos + 1;
        }
        proof {
            lemma_insert_sorted(kv, sorted@, pos as int, k@, id);
            kv.insert_ensures(pos as int, k@);
            sorted@.insert_ensures(pos as int, id);
        }
        let ghost old_sorted = sorted@;
        let ghost old_keys = keys@;
        let ghost k_view = k@;
        sorted.insert(pos, id);
        keys.insert(pos, k);
        proof {
            let old_kv = kv;
            kv = kv.insert(pos as int, k_view);
            old_keys.insert_ensures(pos as int, k);
            assert forall|j: int| 0 <= j < kv.len() implies (#[trigger] keys@[j])@ == kv[j] by {
                if j > pos {
                    assert(keys@[j] == old_keys[j - 1]);
                    assert(kv[j] == old_kv[j - 1]);
                } else if j < pos {
                    assert(keys@[j] == old_keys[j]);
                    assert(kv[j] == old_kv[j]);
                }
            }
            assert forall|x: PlaylistId|
                #[trigger] sorted@.contains(x) <==> exists|q: int| 0 <= q < i + 1 && (#[trigger] playlists@[q])@.id == x by {
                if sorted@.contains(x) {
                    let j = choose|j: int| 0 <= j < sorted@.len() && sorted@[j] == x;
                    if j < pos {
                        assert(old_sorted[j] == x);
                        assert(old_sorted.contains(x));
                    } else if j > pos {
                        assert(old_sorted[j - 1] == x);
                        assert(old_sorted.contains(x));
                    }
                }
                if exists|q: int| 0 <= q < i + 1 && (#[trigger] playlists@[q])@.id == x {
                    let q = choose|q: int| 0 <= q < i + 1 && (#[trigger] playlists@[q])@.id == x;
                    if q < i {
                        assert(old_sorted.contains(x));
                        let j = choose|j: int| 0 <= j < old_sorted.len() && old_sorted[j] == x;
                        if j < pos {
                            assert(sorted@[j] == x);
                        } else {
                            assert(sorted@[j + 1] == x);
                        }
                    } else {
                        assert(sorted@[pos as int] == x);
                    }
                }
            }
        }
        i = i + 1;
    }
    assert forall|id: PlaylistId| #[trigger] sorted@.contains(id) <==> map.contains_key(id) by {
    }
    assert forall|a: int, b: int|
        0 <= a < b < sorted@.len() implies listed_before(map[#[trigger] sorted@[a]], map[#[trigger] sorted@[b]]) by {
        assert(key_before(kv[a], sorted@[a], kv[b], sorted@[b]));
    }
    sorted
}

/// The index of which playlists, in listing order, hold each song.
fn index_members(playlists: &Vec<Playlist>, sorted: &Vec<PlaylistId>) -> (r: HashMap<
    u64,
    Vec<PlaylistId>,
>)
    requires
        distinct_ids(playlists@),
        sorted_listing(playlist_map(playlists@), sorted@),
    ensures
        forall|s: SongId| #[trigger] entry_of(r@, s) == members_in(sorted@, playlist_map(playlists@), s),
{
    let ghost map = playlist_map(playlists@);
    proof {
        lemma_sorted_no_duplicates(map, sorted@);
        lemma_map_contents(playlists@);
    }
    let mut index: HashMap<u64, Vec<PlaylistId>> = HashMap::new();
    let mut t: usize = 0;
    assert forall|s: SongId| #[trigger] entry_of(index@, s) == members_in(sorted@.take(0), map, s) by {
        assert(sorted@.take(0).len() == 0);
    }
    while t < sorted.len()
        invariant
            t <= sorted@.len(),
            distinct_ids(playlists@),
            map == playlist_map(playlists@),
            sorted_listing(map, sorted@),
            sorted@.no_duplicates(),
            forall|s: SongId| #[trigger] entry_of(index@, s) == members_in(sorted@.take(t as int), map, s),
        decreases sorted@.len() - t,
    {
        let id = sorted[t];
        assert(sorted@.contains(id)) by {
            assert(sorted@[t as int] == id);
        }
        let found = find_index(playlists, &id);
        let idx = found.unwrap();
        let p = &playlists[idx];
        let ghost prefix = sorted@.take(t as int);
        proof {
            assert(prefix.no_duplicates());
            assert(!prefix.contains(id)) by {
                if prefix.contains(id) {
                    let q = choose|q: int| 0 <= q < prefix.len() && prefix[q] == id;
                    assert(sorted@[q] == sorted@[t as int]);
                }
            }
        }
        let mut j: usize = 0;
        while j < p.songs.len()
            invariant
                j <= p@.songs.len(),
                p@ == map[id],
                !prefix.contains(id),
                prefix.no_duplicates(),
                forall|s: SongId|
                    #[trigger] entry_of(index@, s) == if p@.songs.take(j as int).contains(s) {
                        members_in(prefix, map, s).push(id)
                    } else {
                        members_in(prefix, map, s)
                    },
            decreases p@.songs.len() - j,
        {
            let song = p.songs[j];
            let key = song.raw();
            let ghost before = index@;
            let removed = index.remove(&key);
            let mut entry = match removed {
                Some(v) => v,
                None => Vec::new(),
            };
            assert(entry@ == entry_of(before, song));
            let present = contains_id(&entry, &id);
            if !present {
                entry.push(id);
            }
            let ghost new_entry = entry@;
            let ghost mid = index@;
            index.insert(key, entry);
            proof {
                assert(mid == before.remove(key));
                assert(index@ == mid.insert(key, entry));
                assert(entry_of(index@, song) == new_entry);
                lemma_members_in(prefix, map, song);
                let seen = p@.songs.take(j as int);
                let next = p@.songs.take(j + 1);
                assert(next =~= seen.push(song));
                assert forall|x: SongId| #[trigger] entry_of(index@, x) == if next.contains(x) {
                    members_in(prefix, map, x).push(id)
                } else {
                    members_in(prefix, map, x)
                } by {
                    SongId::lemma_raw_injective(x, song);
                    if x == song {
                        assert(next.contains(x)) by {
                            assert(next[j as int] == song);
                        }
                        if seen.contains(song) {
                            assert(members_in(prefix, map, song).push(id).contains(id)) by {
                                let m = members_in(prefix, map, song);
                                assert(m.push(id)[m.len() as int] == id);
                            }
                        } else {
                            assert(!members_in(prefix, map, song).contains(id));
                        }
                    } else {
                        assert(x.raw_value() != key);
                        assert(entry_of(index@, x) == entry_of(before, x));
                        assert(next.contains(x) == seen.contains(x)) by {
                            if next.contains(x) {
                                let q = choose|q: int| 0 <= q < next.len() && next[q] == x;
                                assert(q < seen.len());
                                assert(seen[q] == x);
                            }
                            if seen.contains(x) {
                                let q = choose|q: int| 0 <= q < seen.len() && seen[q] == x;
                                assert(next[q] == x);
                            }
                        }
                    }
                }
            }
            j = j + 1;
        }
        proof {
            assert(p@.songs.take(p@.songs.len() as int) =~= p@.songs);
            let next = sorted@.take(t + 1);
            assert(next.drop_last() =~= prefix);
            assert(next.last() == id);
        }
        t = t + 1;
    }
    assert(sorted@.take(sorted@.len() as int) =~= sorted@);
    index
}

/// `ids` without any occurrence of `id`.
pub open spec fn without_id(ids: Seq<PlaylistId>, id: PlaylistId) -> Seq<PlaylistId>
    decreases ids.len(),
{
    if ids.len() == 0 {
        Seq::empty()
    } else {
        without_id(ids.drop_last(), id) + if ids.last() == id {
            Seq::empty()
        } else {
            seq![ids.last()]
        }
    }
}

proof fn lemma_without_song(songs: Seq<SongId>, song: SongId)
    ensures
        forall|x: SongId| #[trigger] without_song(songs, song).contains(x) <==> (songs.contains(x) && x != song),
    decreases songs.len(),
{
    if songs.len() > 0 {
        let t = songs.drop_last();
        lemma_without_song(t, song);
        let w = without_song(t, song);
        assert forall|x: SongId| #[trigger] without_song(songs, song).contains(x) <==> (songs.contains(x) && x != song) by {
            if songs.last() == song {
                assert(without_song(songs, song) =~= w);
            } else {
                assert(without_song(songs, song) =~= w.push(songs.last()));
                if w.push(songs.last()).contains(x) && x != songs.last() {
                    let q = choose|q: int| 0 <= q < w.len() + 1 && w.push(songs.last())[q] == x;
                    assert(w[q] == x);
                }
                if w.contains(x) {
                    let q = choose|q: int| 0 <= q < w.len() && w[q] == x;
                    assert(w.push(songs.last())[q] == x);
                }
                if x == songs.last() {
                    assert(w.push(songs.last())[w.len() as int] == x);
                }
            }
            if songs.contains(x) && x != songs.last() {
                let q = choose|q: int| 0 <= q < songs.len() && songs[q] == x;
                assert(t[q] == x);
            }
            if t.contains(x) {
                let q = choose|q: int| 0 <= q < t.len() && t[q] == x;
                assert(songs[q] == x);
            }
            if x == songs.last() {
                assert(songs[songs.len() - 1] == x);
            }
        }
    }
}

proof fn lemma_without_id(ids: Seq<PlaylistId>, id: PlaylistId)
    ensures
        forall|x: PlaylistId| #[trigger] without_id(ids, id).contains(x) <==> (ids.contains(x) && x != id),
        ids.no_duplicates() ==> without_id(ids, id).no_duplicates(),
    decreases ids.len(),
{
    if ids.len() > 0 {
        let t = ids.drop_last();
        lemma_without_id(t, id);
        let w = without_id(t, id);
        assert forall|x: PlaylistId| #[trigger] without_id(ids, id).contains(x) <==> (ids.contains(x) && x != id) by {
            if ids.last() == id {
                assert(without_id(ids, id) =~= w);
            } else {
                assert(without_id(ids, id) =~= w.push(ids.last()));
                if w.push(ids.last()).contains(x) && x != ids.last() {
                    let q = choose|q: int| 0 <= q < w.len() + 1 && w.push(ids.last())[q] == x;
                    assert(w[q] == x);
                }
                if w.contains(x) {
                    let q = choose|q: int| 0 <= q < w.len() && w[q] == x;
                    assert(w.push(ids.last())[q] == x);
                }
                if x == ids.last() {
                    assert(w.push(ids.last())[w.len() as int] == x);
                }
            }
            if ids.contains(x) && x != ids.last() {
                let q = choose|q: int| 0 <= q < ids.len() && ids[q] == x;
                assert(t[q] == x);
            }
            if t.contains(x) {
                let q = choose|q: int| 0 <= q < t.len() && t[q] == x;
                assert(ids[q] == x);
            }
            if x == ids.last() {
                assert(ids[ids.len() - 1] == x);
            }
        }
        if ids.no_duplicates() {
            assert(t.no_duplicates());
            if ids.last() == id {
                assert(without_id(ids, id) =~= w);
            } else {
                assert(without_id(ids, id) =~= w.push(ids.last()));
                assert(!t.contains(ids.last())) by {
                    if t.contains(ids.last()) {
                        let q = choose|q: int| 0 <= q < t.len() && t[q] == ids.last();
                        assert(ids[q] == ids[ids.len() - 1]);
                    }
                }
                assert(!w.contains(ids.last()));
                assert forall|a: int, b: int| 0 <= a < b < w.len() + 1 implies w.push(ids.last())[a] != w.push(ids.last())[b] by {
                    if b == w.len() {
                        assert(w.contains(w[a]));
                    }
                }
            }
        }
    }
}

/// Whether the playlist `pid` of `map` holds `song`.
pub open spec fn holds(map: Map<PlaylistId, PlaylistView>, pid: PlaylistId, song: SongId) -> bool {
    map.contains_key(pid) && map[pid].songs.contains(song)
}

/// The playlists of `loaded` by identifier, each keeping only the songs
/// that occur in `known`; a later playlist replaces an earlier one with
/// the same identifier.
pub open spec fn loaded_map(loaded: Seq<Playlist>, known: Seq<SongId>) -> Map<PlaylistId, PlaylistView>
    decreases loaded.len(),
{
    if loaded.len() == 0 {
        Map::empty()
    } else {
        loaded_map(loaded.drop_last(), known).insert(
            loaded.last()@.id,
            PlaylistView { songs: known_songs(loaded.last()@.songs, known), ..loaded.last()@ },
        )
    }
}

/// How many songs `loaded` loses when only the songs in `known` are kept.
pub open spec fn removed_total(loaded: Seq<Playlist>, known: Seq<SongId>) -> int
    decreases loaded.len(),
{
    if loaded.len() == 0 {
        0
    } else {
        removed_total(loaded.drop_last(), known) + loaded.last()@.songs.len() - known_songs(
            loaded.last()@.songs,
            known,
        ).len()
    }
}

proof fn lemma_known_songs_len(songs: Seq<SongId>, known: Seq<SongId>)
    ensures
        known_songs(songs, known).len() <= songs.len(),
    decreases songs.len(),
{
    if songs.len() > 0 {
        lemma_known_songs_len(songs.drop_last(), known);
    }
}

/// Adds `id` at the end of the index entry for `song`.
fn push_member(index: &mut HashMap<u64, Vec<PlaylistId>>, song: SongId, id: PlaylistId)
    ensures
        forall|s: SongId|
            #[trigger] entry_of(final(index)@, s) == if s == song {
                entry_of(old(index)@, song).push(id)
            } else {
                entry_of(old(index)@, s)
            },
{
    let key = song.raw();
    let ghost before = index@;
    let mut entry = match index.remove(&key) {
        Some(v) => v,
        None => Vec::new(),
    };
    assert(entry@ == entry_of(before, song));
    entry.push(id);
    index.insert(key, entry);
    assert forall|s: SongId|
        #[trigger] entry_of(index@, s) == if s == song {
            entry_of(before, song).push(id)
        } else {
            entry_of(before, s)
        } by {
        SongId::lemma_raw_injective(s, song);
    }
}

/// Removes every `id` from the index entry for `song`, dropping the entry
/// when it becomes empty.
fn drop_member(index: &mut HashMap<u64, Vec<PlaylistId>>, song: SongId, id: PlaylistId)
    ensures
        forall|s: SongId|
            #[trigger] entry_of(final(index)@, s) == if s == song {
                without_id(entry_of(old(index)@, song), id)
            } else {
                entry_of(old(index)@, s)
            },
{
    let key = song.raw();
    let ghost before = index@;
    match index.remove(&key) {
        Some(entry) => {
            let ghost e = entry@;
            assert(e == entry_of(before, song));
            let mut kept: Vec<PlaylistId> = Vec::new();
            let mut i: usize = 0;
            while i < entry.len()
                invariant
                    i <= e.len(),
                    entry@ == e,
                    kept@ == without_id(e.take(i as int), id),
                decreases e.len() - i,
            {
                if !same_id(&entry[i], &id) {
                    kept.push(entry[i]);
                }
                i = i + 1;
                assert(e.take(i as int).drop_last() =~= e.take(i - 1));
            }
            assert(e.take(e.len() as int) =~= e);
            if kept.len() > 0 {
                index.insert(key, kept);
            }
        },
        None => {
            assert(without_id(Seq::<PlaylistId>::empty(), id) =~= Seq::<PlaylistId>::empty());
        },
    }
    assert forall|s: SongId|
        #[trigger] entry_of(index@, s) == if s == song {
            without_id(entry_of(before, song), id)
        } else {
            entry_of(before, s)
        } by {
        SongId::lemma_raw_injective(s, song);
    }
}

/// The listing order of `playlists` and the index of which playlists hold
/// each song, rebuilt from scratch.
fn reindex(playlists: &Vec<Playlist>) -> (r: (Vec<PlaylistId>, HashMap<u64, Vec<PlaylistId>>))
    requires
        distinct_ids(playlists@),
    ensures
        sorted_listing(playlist_map(playlists@), r.0@),
        forall|s: SongId| #[trigger] entry_of(r.1@, s) == members_in(r.0@, playlist_map(playlists@), s),
        forall|s: SongId, pid: PlaylistId|
            #![trigger entry_of(r.1@, s).contains(pid)]
            entry_of(r.1@, s).contains(pid) <==> holds(playlist_map(playlists@), pid, s),
        forall|s: SongId| #[trigger] entry_of(r.1@, s).no_duplicates(),
{
    let sorted = sort_playlists(playlists);
    let index = index_members(playlists, &sorted);
    proof {
        lemma_rebuilt_index(playlists@, sorted@, index@);
    }
    (sorted, index)
}

/// The next revision, and when the oldest pending change was made: kept
/// when there already is one, now otherwise.
fn touch(revision: u64, dirty_since: Option<Instant>) -> (r: (u64, Option<Instant>))
    ensures
        r.0 == next_revision(revision),
        r.1 is Some,
        dirty_since is Some ==> r.1 == dirty_since,
{
    (revision.wrapping_add(1), mark_dirty(dirty_since))
}

/// When the oldest pending change was made: kept when there already is
/// one, now otherwise.
fn mark_dirty(dirty_since: Option<Instant>) -> (r: Option<Instant>)
    ensures
        r is Some,
        dirty_since is Some ==> r == dirty_since,
{
    match dirty_since {
        Some(t) => Some(t),
        None => Some(now()),
    }
}

/// An index rebuilt from the playlists agrees with them.
proof fn lemma_rebuilt_index(
    playlists: Seq<Playlist>,
    sorted: Seq<PlaylistId>,
    index: Map<u64, Vec<PlaylistId>>,
)
    requires
        distinct_ids(playlists),
        sorted_listing(playlist_map(playlists), sorted),
        forall|s: SongId| #[trigger] entry_of(index, s) == members_in(sorted, playlist_map(playlists), s),
    ensures
        forall|s: SongId, pid: PlaylistId|
            #![trigger entry_of(index, s).contains(pid)]
            entry_of(index, s).contains(pid) <==> holds(playlist_map(playlists), pid, s),
        forall|s: SongId| #[trigger] entry_of(index, s).no_duplicates(),
{
    let map = playlist_map(playlists);
    lemma_sorted_no_duplicates(map, sorted);
    assert forall|s: SongId, pid: PlaylistId|
        #![trigger entry_of(index, s).contains(pid)]
        entry_of(index, s).contains(pid) <==> holds(map, pid, s) by {
        lemma_members_in(sorted, map, s);
        assert(sorted.contains(pid) <==> map.contains_key(pid));
    }
    assert forall|s: SongId| #[trigger] entry_of(index, s).no_duplicates() by {
        lemma_members_in(sorted, map, s);
    }
}

impl PlaylistStore {
    #[verifier::type_invariant]
    spec fn well_formed(&self) -> bool {
        &&& distinct_ids(self.playlists@)
        &&& sorted_listing(playlist_map(self.playlists@), self.sorted_ids@)
        &&& forall|s: SongId, pid: PlaylistId|
            #![trigger entry_of(self.membership@, s).contains(pid)]
            entry_of(self.membership@, s).contains(pid) <==> holds(playlist_map(self.playlists@), pid, s)
        &&& forall|s: SongId| #[trigger] entry_of(self.membership@, s).no_duplicates()
        &&& self.dirty == self.dirty_since is Some
    }

    /// The playlists, by identifier.
    pub closed spec fn playlists_view(&self) -> Map<PlaylistId, PlaylistView> {
        playlist_map(self.playlists@)
    }

    /// The identifiers in listing order.
    pub closed spec fn sorted_view(&self) -> Seq<PlaylistId> {
        self.sorted_ids@
    }

    /// The identifiers of the playlists holding `song`, as the index keeps
    /// them.
    pub closed spec fn containing_view(&self, song: SongId) -> Seq<PlaylistId> {
        entry_of(self.membership@, song)
    }

    pub closed spec fn revision_view(&self) -> u64 {
        self.revision
    }

    /// Whether there are changes not yet saved.
    pub closed spec fn is_dirty(&self) -> bool {
        self.dirty
    }

    /// When the oldest change not yet saved was made.
    pub closed spec fn pending_since(&self) -> Option<Instant> {
        self.dirty_since
    }

    /// Where the store is saved.
    pub closed spec fn path_view(&self) -> Seq<char> {
        self.path@
    }

    /// The listing order and the index were rebuilt from the playlists.
    pub open spec fn is_reindexed(&self) -> bool {
        &&& sorted_listing(self.playlists_view(), self.sorted_view())
        &&& forall|s: SongId|
            #[trigger] self.containing_view(s) == members_in(self.sorted_view(), self.playlists_view(), s)
    }

    /// `self` is `before` after one change: the revision moved on, and the
    /// store is due to be saved from the time of its oldest pending change.
    pub open spec fn touched_from(&self, before: &PlaylistStore) -> bool {
        &&& self.revision_view() == next_revision(before.revision_view())
        &&& self.is_dirty()
        &&& self.pending_since() is Some
        &&& (before.pending_since() is Some ==> self.pending_since() == before.pending_since())
        &&& self.path_view() == before.path_view()
    }

    /// `self` holds what `before` holds, with nothing left to save.
    pub open spec fn saved_from(&self, before: &PlaylistStore) -> bool {
        &&& self.playlists_view() == before.playlists_view()
        &&& self.sorted_view() == before.sorted_view()
        &&& forall|s: SongId| #[trigger] self.containing_view(s) == before.containing_view(s)
        &&& self.revision_view() == before.revision_view()
        &&& self.path_view() == before.path_view()
        &&& !self.is_dirty()
        &&& self.pending_since() is None
    }

    /// What a save attempt reporting `r` leaves: after a successful save,
    /// the same contents with nothing left to save; after any other
    /// report, the store exactly as it was, its changes still pending.
    pub open spec fn flushed_from(&self, before: &PlaylistStore, r: SaveOutcome) -> bool {
        if r == SaveOutcome::Saved {
            self.saved_from(before)
        } else {
            *self == *before
        }
    }


    /// Moves the whole store out, leaving an empty one at no path behind.
    fn take(&mut self) -> (r: PlaylistStore)
        ensures
            r == *old(self),
    {
        let mut r = PlaylistStore::empty(String::new());
        std::mem::swap(&mut r, self);
        r
    }

    /// Where the store is saved.
    pub fn path(&self) -> (r: &str)
        ensures
            r@ == self.path_view(),
    {
        self.path.as_str()
    }

    /// A number that changes on every change of the store.
    pub fn revision(&self) -> (r: u64)
        ensures
            r == self.revision_view(),
    {
        self.revision
    }

    /// The playlist with identifier `id`.
    pub fn get(&self, id: PlaylistId) -> (r: Option<&Playlist>)
        ensures
            match r {
                Some(p) => self.playlists_view().contains_key(id) && p@ == self.playlists_view()[id],
                None => !self.playlists_view().contains_key(id),
            },
    {
        proof {
            use_type_invariant(self);
        }
        match find_index(&self.playlists, &id) {
            Some(i) => Some(&self.playlists[i]),
            None => None,
        }
    }

    /// How many playlists there are.
    pub fn len(&self) -> (r: usize)
        ensures
            r == self.sorted_view().len(),
    {
        self.sorted_ids.len()
    }

    /// Whether there is no playlist.
    pub fn is_empty(&self) -> (r: bool)
        ensures
            r == (self.sorted_view().len() == 0),
            r == (self.playlists_view().dom() == Set::<PlaylistId>::empty()),
    {
        proof {
            use_type_invariant(self);
            if self.sorted_ids@.len() > 0 {
                assert(self.sorted_ids@.contains(self.sorted_ids@[0]));
                assert(self.playlists_view().dom().contains(self.sorted_ids@[0]));
            } else {
                assert forall|id: PlaylistId| !self.playlists_view().dom().contains(id) by {
                    assert(!self.sorted_ids@.contains(id));
                }
                assert(self.playlists_view().dom() =~= Set::<PlaylistId>::empty());
            }
        }
        self.sorted_ids.len() == 0
    }

    /// Every playlist once, by name ignoring case, then by identifier.
    pub fn ids_sorted_by_name(&self) -> (r: &[PlaylistId])
        ensures
            r@ == self.sorted_view(),
            sorted_listing(self.playlists_view(), r@),
    {
        proof {
            use_type_invariant(self);
        }
        self.sorted_ids.as_slice()
    }

    /// The playlists that hold `song`, each once.
    pub fn containing(&self, song: SongId) -> (r: &[PlaylistId])
        ensures
            r@ == self.containing_view(song),
            forall|pid: PlaylistId| #[trigger] r@.contains(pid) <==> holds(self.playlists_view(), pid, song),
            r@.no_duplicates(),
    {
        proof {
            use_type_invariant(self);
        }
        let r: &[PlaylistId] = match self.membership.get(&song.raw()) {
            Some(v) => v.as_slice(),
            None => &[],
        };
        proof {
            let e = entry_of(self.membership@, song);
            assert(r@ == e);
            assert forall|pid: PlaylistId| #[trigger] r@.contains(pid) <==> holds(self.playlists_view(), pid, song) by {
                assert(e.contains(pid) <==> holds(playlist_map(self.playlists@), pid, song));
            }
            assert(e.no_duplicates());
        }
        r
    }

    /// Whether playlist `playlist` holds `song`.
    pub fn contains(&self, playlist: PlaylistId, song: SongId) -> (r: bool)
        ensures
            r == holds(self.playlists_view(), playlist, song),
    {
        let ids = self.containing(song);
        let mut i: usize = 0;
        while i < ids.len()
            invariant
                i <= ids@.len(),
                forall|pid: PlaylistId| #[trigger] ids@.contains(pid) <==> holds(self.playlists_view(), pid, song),
                forall|q: int| 0 <= q < i ==> ids@[q] != playlist,
            decreases ids@.len() - i,
        {
            if same_id(&ids[i], &playlist) {
                assert(ids@.contains(playlist));
                return true;
            }
            i = i + 1;
        }
        assert(!ids@.contains(playlist));
        assert(!ids@.contains(playlist));
        false
    }


    /// Creates an empty playlist named `name` under a fresh identifier and
    /// returns the identifier.
    pub fn create(&mut self, name: &str) -> (r: PlaylistId)
        ensures
            final(self).playlists_view() == old(self).playlists_view().insert(
                r,
                PlaylistView { id: r, name: name@, songs: Seq::empty() },
            ),
            final(self).is_reindexed(),
            final(self).touched_from(old(self)),
            r.bytes()[6] & 0xf0 == 0x40,
            r.bytes()[8] & 0xc0 == 0x80,
    {
        proof {
            use_type_invariant(&*self);
        }
        let id = PlaylistId::new();
        let playlist = Playlist::new(id, name);
        let taken = self.take();
        proof {
            use_type_invariant(&taken);
        }
        let PlaylistStore { path, mut playlists, revision, dirty_since, .. } = taken;
        let ghost old_playlists = playlists@;
        match find_index(&playlists, &id) {
            Some(j) => {
                proof {
                    lemma_map_update(old_playlists, j as int, playlist);
                }
                playlists.set(j, playlist);
            },
            None => {
                proof {
                    lemma_map_contents(old_playlists);
                    assert forall|a: int, b: int|
                        0 <= a < b < old_playlists.len() + 1 implies (#[trigger] old_playlists.push(playlist)[a])@.id
                        != (#[trigger] old_playlists.push(playlist)[b])@.id by {
                        if b == old_playlists.len() {
                            assert(old_playlists.push(playlist)[a] == old_playlists[a]);
                        }
                    }
                    assert(old_playlists.push(playlist).drop_last() =~= old_playlists);
                }
                playlists.push(playlist);
            },
        }
        let (sorted_ids, membership) = reindex(&playlists);
        let (revision, dirty_since) = touch(revision, dirty_since);
        *self = PlaylistStore { path, playlists, sorted_ids, membership, revision, dirty: true, dirty_since };
        id
    }

    /// Renames playlist `id`; nothing changes when there is no such
    /// playlist.
    pub fn rename(&mut self, id: PlaylistId, name: &str) -> (r: Mutated)
        ensures
            !old(self).playlists_view().contains_key(id) ==> r == Mutated::No && *final(self) == *old(
                self,
            ),
            old(self).playlists_view().contains_key(id) ==> {
                &&& r == Mutated::Yes
                &&& final(self).playlists_view() == old(self).playlists_view().insert(
                    id,
                    PlaylistView { name: name@, ..old(self).playlists_view()[id] },
                )
                &&& final(self).is_reindexed()
                &&& final(self).touched_from(old(self))
            },
    {
        proof {
            use_type_invariant(&*self);
        }
        let j = match find_index(&self.playlists, &id) {
            Some(j) => j,
            None => return Mutated::No,
        };
        let taken = self.take();
        proof {
            use_type_invariant(&taken);
        }
        let PlaylistStore { path, mut playlists, revision, dirty_since, .. } = taken;
        let ghost old_playlists = playlists@;
        let mut playlist = playlists[j].duplicate();
        playlist.rename(name);
        proof {
            lemma_map_update(old_playlists, j as int, playlist);
        }
        playlists.set(j, playlist);
        let (sorted_ids, membership) = reindex(&playlists);
        let (revision, dirty_since) = touch(revision, dirty_since);
        *self = PlaylistStore { path, playlists, sorted_ids, membership, revision, dirty: true, dirty_since };
        Mutated::Yes
    }

    /// Adds `song` at the end of playlist `id`; nothing changes when there
    /// is no such playlist or it already holds the song.
    pub fn add_song(&mut self, id: PlaylistId, song: SongId) -> (r: Mutated)
        ensures
            !holds(old(self).playlists_view(), id, song) && old(self).playlists_view().contains_key(id)
                ==> {
                &&& r == Mutated::Yes
                &&& final(self).playlists_view() == old(self).playlists_view().insert(
                    id,
                    PlaylistView {
                        songs: old(self).playlists_view()[id].songs.push(song),
                        ..old(self).playlists_view()[id]
                    },
                )
                &&& final(self).sorted_view() == old(self).sorted_view()
                &&& forall|s: SongId|
                    #[trigger] final(self).containing_view(s) == if s == song {
                        old(self).containing_view(song).push(id)
                    } else {
                        old(self).containing_view(s)
                    }
                &&& final(self).touched_from(old(self))
            },
            holds(old(self).playlists_view(), id, song) || !old(self).playlists_view().contains_key(id)
                ==> r == Mutated::No && *final(self) == *old(self),
    {
        proof {
            use_type_invariant(&*self);
        }
        let j = match find_index(&self.playlists, &id) {
            Some(j) => j,
            None => return Mutated::No,
        };
        if self.playlists[j].contains(song) {
            return Mutated::No;
        }
        let taken = self.take();
        proof {
            use_type_invariant(&taken);
        }
        let PlaylistStore { path, mut playlists, sorted_ids, mut membership, revision, dirty_since, .. } =
            taken;
        let ghost old_playlists = playlists@;
        let ghost old_map = playlist_map(old_playlists);
        let ghost old_index = membership@;
        let mut playlist = playlists[j].duplicate();
        playlist.add(song);
        proof {
            lemma_map_update(old_playlists, j as int, playlist);
        }
        playlists.set(j, playlist);
        push_member(&mut membership, song, id);
        let (revision, dirty_since) = touch(revision, dirty_since);
        proof {
            let map = playlist_map(playlists@);
            assert(map == old_map.insert(id, playlist@));
            assert forall|x: PlaylistId| #[trigger] sorted_ids@.contains(x) <==> map.contains_key(x) by {
                assert(old_map.contains_key(x) <==> map.contains_key(x));
            }
            assert forall|a: int, b: int|
                0 <= a < b < sorted_ids@.len() implies listed_before(map[#[trigger] sorted_ids@[a]], map[#[trigger] sorted_ids@[b]]) by {
                assert(listed_before(old_map[sorted_ids@[a]], old_map[sorted_ids@[b]]));
                assert(sort_key(map[sorted_ids@[a]]) == sort_key(old_map[sorted_ids@[a]]));
                assert(sort_key(map[sorted_ids@[b]]) == sort_key(old_map[sorted_ids@[b]]));
            }
            assert(!entry_of(old_index, song).contains(id));
            assert forall|x: SongId, pid: PlaylistId|
                #![trigger entry_of(membership@, x).contains(pid)]
                entry_of(membership@, x).contains(pid) <==> holds(map, pid, x) by {
                assert(entry_of(old_index, x).contains(pid) <==> holds(old_map, pid, x));
                if x == song {
                    let e = entry_of(old_index, song);
                    if e.push(id).contains(pid) && pid != id {
                        let q = choose|q: int| 0 <= q < e.len() + 1 && e.push(id)[q] == pid;
                        assert(e[q] == pid);
                    }
                    if e.contains(pid) {
                        let q = choose|q: int| 0 <= q < e.len() && e[q] == pid;
                        assert(e.push(id)[q] == pid);
                    }
                    if pid == id {
                        assert(e.push(id)[e.len() as int] == id);
                        assert(map[id].songs[map[id].songs.len() - 1] == song);
                    }
                } else if pid == id {
                    let songs = old_map[id].songs;
                    if songs.push(song).contains(x) {
                        let q = choose|q: int| 0 <= q < songs.len() + 1 && songs.push(song)[q] == x;
                        assert(songs[q] == x);
                    }
                    if songs.contains(x) {
                        let q = choose|q: int| 0 <= q < songs.len() && songs[q] == x;
                        assert(songs.push(song)[q] == x);
                    }
                }
            }
            assert forall|x: SongId| #[trigger] entry_of(membership@, x).no_duplicates() by {
                assert(entry_of(old_index, x).no_duplicates());
                if x == song {
                    let e = entry_of(old_index, song);
                    assert forall|a: int, b: int| 0 <= a < b < e.len() + 1 implies e.push(id)[a] != e.push(id)[b] by {
                        if b == e.len() {
                            assert(e.contains(e[a]));
                        }
                    }
                }
            }
        }
        *self = PlaylistStore { path, playlists, sorted_ids, membership, revision, dirty: true, dirty_since };
        Mutated::Yes
    }

    /// Removes every occurrence of `song` from playlist `id`; nothing
    /// changes when there is no such playlist or it does not hold the song.
    pub fn remove_song(&mut self, id: PlaylistId, song: SongId) -> (r: Mutated)
        ensures
            holds(old(self).playlists_view(), id, song) ==> {
                &&& r == Mutated::Yes
                &&& final(self).playlists_view() == old(self).playlists_view().insert(
                    id,
                    PlaylistView {
                        songs: without_song(old(self).playlists_view()[id].songs, song),
                        ..old(self).playlists_view()[id]
                    },
                )
                &&& final(self).sorted_view() == old(self).sorted_view()
                &&& forall|s: SongId|
                    #[trigger] final(self).containing_view(s) == if s == song {
                        without_id(old(self).containing_view(song), id)
                    } else {
                        old(self).containing_view(s)
                    }
                &&& final(self).touched_from(old(self))
            },
            !holds(old(self).playlists_view(), id, song) ==> r == Mutated::No && *final(self) == *old(
                self,
            ),
    {
        proof {
            use_type_invariant(&*self);
        }
        let j = match find_index(&self.playlists, &id) {
            Some(j) => j,
            None => return Mutated::No,
        };
        if !self.playlists[j].contains(song) {
            return Mutated::No;
        }
        let taken = self.take();
        proof {
            use_type_invariant(&taken);
        }
        let PlaylistStore { path, mut playlists, sorted_ids, mut membership, revision, dirty_since, .. } =
            taken;
        let ghost old_playlists = playlists@;
        let ghost old_map = playlist_map(old_playlists);
        let ghost old_index = membership@;
        let mut playlist = playlists[j].duplicate();
        playlist.remove_all(song);
        proof {
            lemma_map_update(old_playlists, j as int, playlist);
        }
        playlists.set(j, playlist);
        drop_member(&mut membership, song, id);
        let (revision, dirty_since) = touch(revision, dirty_since);
        proof {
            let map = playlist_map(playlists@);
            assert(map == old_map.insert(id, playlist@));
            lemma_without_song(old_map[id].songs, song);
            lemma_without_id(entry_of(old_index, song), id);
            assert forall|x: PlaylistId| #[trigger] sorted_ids@.contains(x) <==> map.contains_key(x) by {
                assert(old_map.contains_key(x) <==> map.contains_key(x));
            }
            assert forall|a: int, b: int|
                0 <= a < b < sorted_ids@.len() implies listed_before(map[#[trigger] sorted_ids@[a]], map[#[trigger] sorted_ids@[b]]) by {
                assert(listed_before(old_map[sorted_ids@[a]], old_map[sorted_ids@[b]]));
                assert(sort_key(map[sorted_ids@[a]]) == sort_key(old_map[sorted_ids@[a]]));
                assert(sort_key(map[sorted_ids@[b]]) == sort_key(old_map[sorted_ids@[b]]));
            }
            assert forall|x: SongId, pid: PlaylistId|
                #![trigger entry_of(membership@, x).contains(pid)]
                entry_of(membership@, x).contains(pid) <==> holds(map, pid, x) by {
                assert(entry_of(old_index, x).contains(pid) <==> holds(old_map, pid, x));
                if x != song && pid == id {
                    assert(without_song(old_map[id].songs, song).contains(x) <==> old_map[id].songs.contains(x));
                }
            }
            assert forall|x: SongId| #[trigger] entry_of(membership@, x).no_duplicates() by {
                assert(entry_of(old_index, x).no_duplicates());
            }
        }
        *self = PlaylistStore { path, playlists, sorted_ids, membership, revision, dirty: true, dirty_since };
        Mutated::Yes
    }

    /// Deletes playlist `id`; nothing changes when there is no such
    /// playlist.
    pub fn delete(&mut self, id: PlaylistId) -> (r: Mutated)
        ensures
            !old(self).playlists_view().contains_key(id) ==> r == Mutated::No && *final(self) == *old(
                self,
            ),
            old(self).playlists_view().contains_key(id) ==> {
                &&& r == Mutated::Yes
                &&& final(self).playlists_view() == old(self).playlists_view().remove(id)
                &&& final(self).is_reindexed()
                &&& final(self).touched_from(old(self))
            },
    {
        proof {
            use_type_invariant(&*self);
        }
        let j = match find_index(&self.playlists, &id) {
            Some(j) => j,
            None => return Mutated::No,
        };
        let taken = self.take();
        proof {
            use_type_invariant(&taken);
        }
        let PlaylistStore { path, mut playlists, revision, dirty_since, .. } = taken;
        let ghost old_playlists = playlists@;
        proof {
            lemma_map_remove(old_playlists, j as int);
        }
        playlists.remove(j);
        let (sorted_ids, membership) = reindex(&playlists);
        let (revision, dirty_since) = touch(revision, dirty_since);
        *self = PlaylistStore { path, playlists, sorted_ids, membership, revision, dirty: true, dirty_since };
        Mutated::Yes
    }

    /// Saves the store with `save` when there are changes not yet saved,
    /// and marks it saved only when `save` reports that it saved; after a
    /// failed save the changes stay pending, to be saved again. Reports
    /// that there was nothing to save when nothing was pending.
    pub fn flush<F: FnOnce(&PlaylistStore) -> SaveOutcome>(&mut self, save: F) -> (r: SaveOutcome)
        requires
            old(self).is_dirty() ==> save.requires((&*old(self),)),
        ensures
            !old(self).is_dirty() ==> r == SaveOutcome::NothingToSave && *final(self) == *old(self),
            old(self).is_dirty() ==> save.ensures((&*old(self),), r) && final(self).flushed_from(old(self), r),
    {
        proof {
            use_type_invariant(&*self);
        }
        if !self.dirty {
            return SaveOutcome::NothingToSave;
        }
        let outcome = save(&*self);
        match outcome {
            SaveOutcome::Saved => {},
            _ => return outcome,
        }
        let taken = self.take();
        proof {
            use_type_invariant(&taken);
        }
        let PlaylistStore { path, playlists, sorted_ids, membership, revision, .. } = taken;
        *self = PlaylistStore {
            path,
            playlists,
            sorted_ids,
            membership,
            revision,
            dirty: false,
            dirty_since: None,
        };
        outcome
    }

    /// Saves the store with `save` when there are changes not yet saved and
    /// `elapsed_millis`, the time since the oldest of them, has reached
    /// [`FLUSH_AFTER_MILLIS`]; reports that there was nothing to save
    /// otherwise.
    pub fn flush_if_elapsed<F: FnOnce(&PlaylistStore) -> SaveOutcome>(
        &mut self,
        elapsed_millis: u128,
        save: F,
    ) -> (r: SaveOutcome)
        requires
            old(self).is_dirty() ==> save.requires((&*old(self),)),
        ensures
            old(self).is_dirty() && elapsed_millis >= FLUSH_AFTER_MILLIS ==> save.ensures(
                (&*old(self),),
                r,
            ) && final(self).flushed_from(old(self), r),
            !(old(self).is_dirty() && elapsed_millis >= FLUSH_AFTER_MILLIS) ==> r
                == SaveOutcome::NothingToSave && *final(self) == *old(self),
    {
        if self.dirty && elapsed_millis >= FLUSH_AFTER_MILLIS {
            return self.flush(save);
        }
        SaveOutcome::NothingToSave
    }

    /// Saves the store with `save` once the oldest change not yet saved is
    /// [`FLUSH_AFTER_MILLIS`] old; reports that there was nothing to save
    /// otherwise. How much time has passed is read from the clock.
    pub fn flush_if_due<F: FnOnce(&PlaylistStore) -> SaveOutcome>(&mut self, save: F) -> (r: SaveOutcome)
        requires
            old(self).is_dirty() ==> save.requires((&*old(self),)),
        ensures
            !old(self).is_dirty() ==> r == SaveOutcome::NothingToSave && *final(self) == *old(self),
            old(self).is_dirty() ==> (save.ensures((&*old(self),), r) && final(self).flushed_from(old(self), r))
                || (r == SaveOutcome::NothingToSave && *final(self) == *old(self)),
    {
        proof {
            use_type_invariant(&*self);
        }
        let elapsed = match &self.dirty_since {
            Some(since) => millis_since(since),
            None => 0,
        };
        self.flush_if_elapsed(elapsed, save)
    }

    /// An empty store saved at `path`.
    pub fn empty(path: String) -> (r: PlaylistStore)
        ensures
            r.playlists_view() == Map::<PlaylistId, PlaylistView>::empty(),
            r.sorted_view() == Seq::<PlaylistId>::empty(),
            forall|s: SongId| #[trigger] r.containing_view(s) == Seq::<PlaylistId>::empty(),
            r.revision_view() == 0,
            !r.is_dirty(),
            r.pending_since() is None,
            r.path_view() == path@,
    {
        let r = PlaylistStore {
            path,
            playlists: Vec::new(),
            sorted_ids: Vec::new(),
            membership: HashMap::new(),
            revision: 0,
            dirty: false,
            dirty_since: None,
        };
        assert(playlist_map(r.playlists@) =~= Map::<PlaylistId, PlaylistView>::empty());
        r
    }

    /// A store holding the playlists read back from storage, each keeping
    /// only the songs that occur in `known`; a later playlist replaces an
    /// earlier one with the same identifier. Also counts what was read and
    /// what was pruned.
    pub fn from_loaded(path: String, loaded: Vec<Playlist>, known: &[SongId]) -> (r: (
        PlaylistStore,
        PruneStats,
    ))
        ensures
            r.0.playlists_view() == loaded_map(loaded@, known@),
            r.0.is_reindexed(),
            r.0.revision_view() == 0,
            !r.0.is_dirty(),
            r.0.pending_since() is None,
            r.0.path_view() == path@,
            r.1.playlists_loaded == loaded@.len(),
            r.1.songs_removed == if removed_total(loaded@, known@) > usize::MAX {
                usize::MAX as int
            } else {
                removed_total(loaded@, known@)
            },
            r.1.warnings@.len() == 0,
    {
        let mut playlists: Vec<Playlist> = Vec::new();
        let mut removed: usize = 0;
        let mut i: usize = 0;
        assert(playlist_map(playlists@) =~= loaded_map(loaded@.take(0), known@));
        while i < loaded.len()
            invariant
                i <= loaded@.len(),
                distinct_ids(playlists@),
                playlist_map(playlists@) == loaded_map(loaded@.take(i as int), known@),
                removed == if removed_total(loaded@.take(i as int), known@) > usize::MAX {
                    usize::MAX as int
                } else {
                    removed_total(loaded@.take(i as int), known@)
                },
            decreases loaded@.len() - i,
        {
            let mut p = loaded[i].duplicate();
            let before = p.len();
            p.retain_songs(known);
            let after = p.len();
            proof {
                lemma_known_songs_len(loaded@[i as int]@.songs, known@);
                assert(loaded@.take(i + 1).drop_last() =~= loaded@.take(i as int));
                assert(loaded@.take(i + 1).last() == loaded@[i as int]);
            }
            removed = removed.saturating_add(before - after);
            let ghost old_playlists = playlists@;
            match find_index(&playlists, &p.id) {
                Some(j) => {
                    proof {
                        lemma_map_update(old_playlists, j as int, p);
                    }
                    playlists.set(j, p);
                },
                None => {
                    proof {
                        lemma_map_contents(old_playlists);
                        assert forall|a: int, b: int|
                            0 <= a < b < old_playlists.len() + 1 implies (#[trigger] old_playlists.push(p)[a])@.id
                            != (#[trigger] old_playlists.push(p)[b])@.id by {
                            if b == old_playlists.len() {
                                assert(old_playlists.push(p)[a] == old_playlists[a]);
                            }
                        }
                        assert(old_playlists.push(p).drop_last() =~= old_playlists);
                    }
                    playlists.push(p);
                },
            }
            i = i + 1;
        }
        assert(loaded@.take(loaded@.len() as int) =~= loaded@);
        let sorted = sort_playlists(&playlists);
        let membership = index_members(&playlists, &sorted);
        proof {
            lemma_rebuilt_index(playlists@, sorted@, membership@);
        }
        let store = PlaylistStore {
            path,
            playlists,
            sorted_ids: sorted,
            membership,
            revision: 0,
            dirty: false,
            dirty_since: None,
        };
        (store, PruneStats { playlists_loaded: loaded.len(), songs_removed: removed, warnings: Vec::new() })
    }
}

} // verus!
