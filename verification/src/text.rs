//! Character-level helpers shared by the search, naming and id code.
//!
//! The Unicode tables themselves (white space, letters, case mapping,
//! canonical decomposition) are looked up through the standard library and
//! the `unicode-normalization` crate; their answers are named here and the
//! code built on top of them is verified against those names.

use unicode_normalization::UnicodeNormalization;
use vstd::prelude::*;

verus! {

/// The Unicode `White_Space` property of a character: the controls from
/// tab to carriage return, the space, next line, the no-break spaces, the
/// Ogham space mark, the spaces from en quad to hair space, the line and
/// paragraph separators, the medium mathematical space and the
/// ideographic space.
pub open spec fn char_is_whitespace(c: char) -> bool {
    ||| '\u{9}' <= c <= '\u{d}'
    ||| c == ' '
    ||| c == '\u{85}'
    ||| c == '\u{a0}'
    ||| c == '\u{1680}'
    ||| '\u{2000}' <= c <= '\u{200a}'
    ||| c == '\u{2028}'
    ||| c == '\u{2029}'
    ||| c == '\u{202f}'
    ||| c == '\u{205f}'
    ||| c == '\u{3000}'
}

/// Whether a character is alphabetic or numeric in Unicode's sense.
pub uninterp spec fn char_is_alphanumeric(c: char) -> bool;

/// Whether a character has a Unicode numeric general category.
pub uninterp spec fn char_is_numeric(c: char) -> bool;

/// The full lowercase mapping of a character (one to three characters).
pub uninterp spec fn char_lowercase(c: char) -> Seq<char>;

/// The full uppercase mapping of a character (one to three characters).
pub uninterp spec fn char_uppercase(c: char) -> Seq<char>;

/// The lowercase form of a whole string, as `str::to_lowercase` computes it
/// (it differs from a per-character mapping for a final capital sigma).
pub uninterp spec fn str_lowercase(s: Seq<char>) -> Seq<char>;

/// The canonical decomposition (NFD) of a character sequence.
pub uninterp spec fn canonical_decomposition(s: Seq<char>) -> Seq<char>;

/// The canonical composition (NFC) of a character sequence.
pub uninterp spec fn canonical_composition(s: Seq<char>) -> Seq<char>;

/// Whether a character is a Unicode combining mark.
pub uninterp spec fn char_is_combining_mark(c: char) -> bool;

/// Whether `c` is white space ([`char_is_whitespace`]), as
/// `char::is_whitespace` answers.
pub(crate) fn is_whitespace(c: char) -> (r: bool)
    ensures
        r == char_is_whitespace(c),
{
    ('\u{9}' <= c && c <= '\u{d}') || c == ' ' || c == '\u{85}' || c == '\u{a0}' || c == '\u{1680}' || ('\u{2000}'
        <= c && c <= '\u{200a}') || c == '\u{2028}' || c == '\u{2029}' || c == '\u{202f}' || c == '\u{205f}' || c
        == '\u{3000}'
}

/// Trusted: `char::is_alphanumeric`. The result is named, not tabulated.
#[verifier::external_body]
pub(crate) fn is_alphanumeric(c: char) -> (r: bool)
    ensures
        r == char_is_alphanumeric(c),
{
    c.is_alphanumeric()
}

/// Trusted: `char::is_numeric`. The result is named, not tabulated.
#[verifier::external_body]
pub(crate) fn is_numeric(c: char) -> (r: bool)
    ensures
        r == char_is_numeric(c),
{
    c.is_numeric()
}

/// Trusted: `char::to_lowercase`, collected into a vector. The mapping is
/// named; the contract says nothing about which characters it produces.
#[verifier::external_body]
pub(crate) fn lowercase_of(c: char) -> (r: Vec<char>)
    ensures
        r@ == char_lowercase(c),
{
    c.to_lowercase().collect()
}

/// Trusted: `char::to_uppercase`, collected into a vector. The mapping is
/// named; the contract says nothing about which characters it produces.
#[verifier::external_body]
pub(crate) fn uppercase_of(c: char) -> (r: Vec<char>)
    ensures
        r@ == char_uppercase(c),
{
    c.to_uppercase().collect()
}

/// Trusted: `str::to_lowercase`. The lowercase string is named.
#[verifier::external_body]
pub(crate) fn lowercase_str(s: &str) -> (r: String)
    ensures
        r@ == str_lowercase(s@),
{
    s.to_lowercase()
}

/// Trusted: the `nfd` iterator of `unicode-normalization`, collected. The
/// decomposition is named; the crate implements Unicode's canonical
/// decomposition, which the contract does not restate.
#[verifier::external_body]
pub(crate) fn decompose(s: &str) -> (r: Vec<char>)
    ensures
        r@ == canonical_decomposition(s@),
{
    s.nfd().collect()
}

/// Trusted: the `nfc` iterator of `unicode-normalization` applied to a
/// character sequence, collected. The composition is named.
#[verifier::external_body]
pub(crate) fn compose(chars: &Vec<char>) -> (r: Vec<char>)
    ensures
        r@ == canonical_composition(chars@),
{
    chars.iter().copied().nfc().collect()
}

/// Trusted: `unicode_normalization::char::is_combining_mark`. The answer is
/// named; the crate's table is not restated.
#[verifier::external_body]
pub(crate) fn is_combining_mark(c: char) -> (r: bool)
    ensures
        r == char_is_combining_mark(c),
{
    unicode_normalization::char::is_combining_mark(c)
}

/// Trusted: collecting characters into a `String` keeps them in order.
#[verifier::external_body]
pub(crate) fn string_from_chars(chars: &Vec<char>) -> (r: String)
    ensures
        r@ == chars@,
{
    chars.iter().collect()
}

/// The characters of `s`, in order.
pub fn chars_of(s: &str) -> (r: Vec<char>)
    ensures
        r@ == s@,
{
    broadcast use vstd::string::axiom_spec_iter;

    let mut out: Vec<char> = Vec::new();
    for c in it: s.chars()
        invariant
            it.seq() == s@,
            out@ == it.seq().take(it.index() as int),
    {
        out.push(c);
    }
    out
}

/// `s` without its leading white space.
pub open spec fn trim_start_seq(s: Seq<char>) -> Seq<char>
    decreases s.len(),
{
    if s.len() > 0 && char_is_whitespace(s[0]) {
        trim_start_seq(s.drop_first())
    } else {
        s
    }
}

/// `s` without its trailing white space.
pub open spec fn trim_end_seq(s: Seq<char>) -> Seq<char>
    decreases s.len(),
{
    if s.len() > 0 && char_is_whitespace(s.last()) {
        trim_end_seq(s.drop_last())
    } else {
        s
    }
}

/// `s` without leading and trailing white space.
pub open spec fn trim_seq(s: Seq<char>) -> Seq<char> {
    trim_end_seq(trim_start_seq(s))
}

/// Trusted: `str::trim`, which drops leading and trailing characters with
/// the Unicode `White_Space` property (the same property `char::is_whitespace`
/// reports).
#[verifier::external_body]
pub(crate) fn trim(s: &str) -> (r: &str)
    ensures
        r@ == trim_seq(s@),
{
    s.trim()
}

/// Whether `prefix` is a prefix of `s`.
pub open spec fn is_prefix(prefix: Seq<char>, s: Seq<char>) -> bool {
    prefix.len() <= s.len() && s.subrange(0, prefix.len() as int) == prefix
}

/// Character-wise equality of two sequences.
pub fn chars_equal(a: &[char], b: &[char]) -> (r: bool)
    ensures
        r == (a@ == b@),
{
    if a.len() != b.len() {
        return false;
    }
    let mut i: usize = 0;
    while i < a.len()
        invariant
            a.len() == b.len(),
            0 <= i <= a.len(),
            forall|k: int| 0 <= k < i ==> a@[k] == b@[k],
        decreases a.len() - i,
    {
        if a[i] != b[i] {
            return false;
        }
        i = i + 1;
    }
    assert(a@ =~= b@);
    true
}

/// Whether `prefix` is a prefix of `s`, character by character.
pub fn starts_with(s: &[char], prefix: &[char]) -> (r: bool)
    ensures
        r == is_prefix(prefix@, s@),
{
    if prefix.len() > s.len() {
        return false;
    }
    let mut i: usize = 0;
    while i < prefix.len()
        invariant
            prefix.len() <= s.len(),
            0 <= i <= prefix.len(),
            forall|k: int| 0 <= k < i ==> s@[k] == prefix@[k],
        decreases prefix.len() - i,
    {
        if s[i] != prefix[i] {
            assert(s@.subrange(0, prefix@.len() as int)[i as int] != prefix@[i as int]);
            return false;
        }
        i = i + 1;
    }
    assert(s@.subrange(0, prefix@.len() as int) =~= prefix@);
    true
}

} // verus!
