//! Fuzzy matching of search queries against song and playlist fields.
//!
//! Both sides are normalised the same way (decomposed, accents and
//! apostrophes removed, separators collapsed to one space, lowercased,
//! recomposed). A pattern matches a candidate when its characters occur in
//! the candidate in order; the score is that of the best alignment, plus
//! bonuses for an exact field, a prefix or a whole word, minus a small
//! penalty for long fields.

use vstd::prelude::*;

use crate::text::{
    canonical_composition, canonical_decomposition, char_is_alphanumeric, char_is_combining_mark,
    char_is_numeric, char_is_whitespace, char_lowercase, chars_equal, compose, decompose,
    is_alphanumeric, is_combining_mark, is_numeric, is_prefix, is_whitespace, lowercase_of,
    starts_with, string_from_chars, trim, trim_seq,
};

verus! {

pub const MATCH: i128 = 16;
pub const CONSECUTIVE: i128 = 20;
pub const WORD_BOUNDARY: i128 = 24;
pub const FIELD_START: i128 = 28;
pub const GAP_START: i128 = -3;
pub const GAP_EXTENSION: i128 = -1;
pub const LEADING_GAP_CAP: i128 = -40;

pub const EXACT_FIELD_BONUS: i128 = 220;
pub const PREFIX_BONUS: i128 = 90;
pub const EXACT_WORD_BONUS: i128 = 60;

pub const LENGTH_PENALTY_CAP: i128 = -48;

// ---------------------------------------------------------------------------
// Normalisation
// ---------------------------------------------------------------------------

/// Apostrophes are dropped without breaking the word they sit in.
pub open spec fn is_apostrophe(c: char) -> bool {
    c == '\'' || c == '\u{2019}' || c == '\u{02BC}' || c == '\u{2018}' || c == '`'
}

/// Punctuation that separates words like white space does.
pub open spec fn is_separator_punctuation(c: char) -> bool {
    c == '-' || c == '_' || c == '/' || c == '\\' || c == '(' || c == ')' || c == '['
        || c == ']' || c == '{' || c == '}' || c == '.' || c == ',' || c == ':' || c == ';'
        || c == '|' || c == '\u{2013}' || c == '\u{2014}'
}

/// A character that ends a word.
pub open spec fn is_separator(c: char) -> bool {
    char_is_whitespace(c) || is_separator_punctuation(c)
}

/// The text produced so far from the decomposed characters `s`, and whether
/// a separator is waiting to become a single space before the next word.
pub open spec fn fold_normalized(s: Seq<char>) -> (Seq<char>, bool)
    decreases s.len(),
{
    if s.len() == 0 {
        (Seq::empty(), false)
    } else {
        let (out, pending) = fold_normalized(s.drop_last());
        let c = s.last();
        if char_is_combining_mark(c) || is_apostrophe(c) {
            (out, pending)
        } else if is_separator(c) {
            (out, out.len() > 0)
        } else {
            let spaced = if pending {
                out.push(' ')
            } else {
                out
            };
            (spaced + char_lowercase(c), false)
        }
    }
}

/// The normalised form of a raw field or query.
pub open spec fn normalized(raw: Seq<char>) -> Seq<char> {
    canonical_composition(fold_normalized(canonical_decomposition(raw)).0)
}

/// Normalises `raw` for matching.
pub fn normalize(raw: &str) -> (r: Vec<char>)
    ensures
        r@ == normalized(raw@),
{
    let decomposed = decompose(raw);
    let mut out: Vec<char> = Vec::new();
    let mut pending_space = false;
    let mut i: usize = 0;
    while i < decomposed.len()
        invariant
            0 <= i <= decomposed.len(),
            (out@, pending_space) == fold_normalized(decomposed@.take(i as int)),
        decreases decomposed.len() - i,
    {
        let c = decomposed[i];
        assert(decomposed@.take(i + 1).drop_last() =~= decomposed@.take(i as int));
        assert(decomposed@.take(i + 1).last() == c);
        if is_combining_mark(c) {
        } else if c == '\'' || c == '\u{2019}' || c == '\u{02BC}' || c == '\u{2018}' || c
            == '`' {
        } else if is_whitespace(c) || c == '-' || c == '_' || c == '/' || c == '\\' || c == '('
            || c == ')' || c == '[' || c == ']' || c == '{' || c == '}' || c == '.' || c == ','
            || c == ':' || c == ';' || c == '|' || c == '\u{2013}' || c == '\u{2014}' {
            pending_space = out.len() > 0;
        } else {
            if pending_space {
                out.push(' ');
                pending_space = false;
            }
            let lower = lowercase_of(c);
            let ghost before = out@;
            let mut k: usize = 0;
            while k < lower.len()
                invariant
                    0 <= k <= lower.len(),
                    out@ == before + lower@.take(k as int),
                decreases lower.len() - k,
            {
                out.push(lower[k]);
                k = k + 1;
                assert(out@ =~= before + lower@.take(k as int));
            }
            assert(lower@.take(lower@.len() as int) =~= lower@);
        }
        i = i + 1;
    }
    assert(decomposed@.take(decomposed@.len() as int) =~= decomposed@);
    compose(&out)
}

// ---------------------------------------------------------------------------
// Words
// ---------------------------------------------------------------------------

/// Splitting on single spaces: the completed non-empty words so far and the
/// word still being read.
pub open spec fn words_state(s: Seq<char>) -> (Seq<Seq<char>>, Seq<char>)
    decreases s.len(),
{
    if s.len() == 0 {
        (Seq::empty(), Seq::empty())
    } else {
        let (done, current) = words_state(s.drop_last());
        if s.last() == ' ' {
            (
                if current.len() > 0 {
                    done.push(current)
                } else {
                    done
                },
                Seq::empty(),
            )
        } else {
            (done, current.push(s.last()))
        }
    }
}

/// The non-empty pieces of `s` between single spaces, in order (what
/// `split(' ')` yields once empty pieces are dropped).
pub open spec fn words(s: Seq<char>) -> Seq<Seq<char>> {
    let (done, current) = words_state(s);
    if current.len() > 0 {
        done.push(current)
    } else {
        done
    }
}

/// Whether `word` is one of the space-separated words of `s`.
pub open spec fn has_word(s: Seq<char>, word: Seq<char>) -> bool {
    word.len() > 0 && words(s).contains(word)
}

/// The words of `s`, each as its own character vector.
fn split_words(s: &[char]) -> (r: Vec<Vec<char>>)
    ensures
        r@.len() == words(s@).len(),
        forall|k: int| 0 <= k < r@.len() ==> (#[trigger] r@[k])@ == words(s@)[k],
{
    let mut done: Vec<Vec<char>> = Vec::new();
    let mut current: Vec<char> = Vec::new();
    let mut i: usize = 0;
    while i < s.len()
        invariant
            0 <= i <= s.len(),
            done@.len() == words_state(s@.take(i as int)).0.len(),
            forall|k: int|
                0 <= k < done@.len() ==> (#[trigger] done@[k])@ == words_state(
                    s@.take(i as int),
                ).0[k],
            current@ == words_state(s@.take(i as int)).1,
        decreases s.len() - i,
    {
        assert(s@.take(i + 1).drop_last() =~= s@.take(i as int));
        let c = s[i];
        if c == ' ' {
            if current.len() > 0 {
                let word = current;
                done.push(word);
            }
            current = Vec::new();
        } else {
            current.push(c);
        }
        i = i + 1;
    }
    assert(s@.take(s@.len() as int) =~= s@);
    if current.len() > 0 {
        done.push(current);
    }
    done
}

/// Whether `word` equals one of the words of `s`.
fn contains_word(s: &[char], word: &[char]) -> (r: bool)
    ensures
        r == has_word(s@, word@),
{
    if word.len() == 0 {
        return false;
    }
    let pieces = split_words(s);
    let mut k: usize = 0;
    while k < pieces.len()
        invariant
            0 <= k <= pieces@.len(),
            word@.len() > 0,
            pieces@.len() == words(s@).len(),
            forall|j: int| 0 <= j < pieces@.len() ==> (#[trigger] pieces@[j])@ == words(s@)[j],
            forall|j: int| 0 <= j < k ==> words(s@)[j] != word@,
        decreases pieces.len() - k,
    {
        if chars_equal(pieces[k].as_slice(), word) {
            assert(words(s@)[k as int] == word@);
            assert(words(s@).contains(word@));
            return true;
        }
        k = k + 1;
    }
    false
}

// ---------------------------------------------------------------------------
// Patterns, queries and candidates
// ---------------------------------------------------------------------------

/// A normalised search term.
#[derive(Debug)]
pub struct Pattern {
    normalized: String,
    chars: Vec<char>,
}

/// A whole query: the normalised phrase and its space-separated terms.
#[derive(Debug)]
pub struct FuzzyQuery {
    phrase: Pattern,
    terms: Vec<Pattern>,
}

/// A normalised field to match against, with the start of each word marked.
#[derive(Debug)]
pub struct Candidate {
    normalized: String,
    chars: Vec<char>,
    boundaries: Vec<bool>,
}

impl View for Pattern {
    type V = Seq<char>;

    closed spec fn view(&self) -> Seq<char> {
        self.chars@
    }
}

impl View for Candidate {
    type V = Seq<char>;

    closed spec fn view(&self) -> Seq<char> {
        self.chars@
    }
}

/// Whether position `i` of `chars` starts a word: the first character, one
/// after a character that is not alphanumeric, or one where digits and
/// non-digits meet.
pub open spec fn starts_word(chars: Seq<char>, i: int) -> bool {
    i == 0 || !char_is_alphanumeric(chars[i - 1]) || char_is_numeric(chars[i - 1])
        != char_is_numeric(chars[i])
}

/// The word-start marks of a whole field.
pub open spec fn word_starts(chars: Seq<char>) -> Seq<bool> {
    Seq::new(chars.len(), |i: int| starts_word(chars, i))
}

impl Pattern {
    #[verifier::type_invariant]
    spec fn well_formed(self) -> bool {
        self.normalized@ == self.chars@
    }

    /// Normalises a raw term.
    pub fn new(raw: &str) -> (r: Pattern)
        ensures
            r@ == normalized(raw@),
    {
        Pattern::from_normalized(normalize(raw))
    }

    fn from_normalized(normalized: Vec<char>) -> (r: Pattern)
        ensures
            r@ == normalized@,
    {
        let text = string_from_chars(&normalized);
        Pattern { normalized: text, chars: normalized }
    }

    pub fn as_str(&self) -> (r: &str)
        ensures
            r@ == self@,
    {
        proof {
            use_type_invariant(self);
        }
        self.normalized.as_str()
    }

    pub fn chars(&self) -> (r: &[char])
        ensures
            r@ == self@,
    {
        self.chars.as_slice()
    }

    pub fn len(&self) -> (r: usize)
        ensures
            r == self@.len(),
    {
        self.chars.len()
    }

    pub fn is_empty(&self) -> (r: bool)
        ensures
            r == (self@.len() == 0),
    {
        self.chars.len() == 0
    }

    /// A copy of this pattern.
    pub fn duplicate(&self) -> (r: Pattern)
        ensures
            r@ == self@,
    {
        let mut chars: Vec<char> = Vec::new();
        let mut i: usize = 0;
        while i < self.chars.len()
            invariant
                0 <= i <= self.chars@.len(),
                chars@ == self.chars@.take(i as int),
            decreases self.chars@.len() - i,
        {
            chars.push(self.chars[i]);
            i = i + 1;
            assert(chars@ =~= self.chars@.take(i as int));
        }
        assert(self.chars@.take(self.chars@.len() as int) =~= self.chars@);
        Pattern::from_normalized(chars)
    }
}

/// The views of a sequence of patterns.
pub open spec fn pattern_views(ps: Seq<Pattern>) -> Seq<Seq<char>> {
    Seq::new(ps.len(), |i: int| ps[i]@)
}

impl FuzzyQuery {
    /// The normalised query phrase, trimmed of surrounding white space.
    pub closed spec fn phrase_view(&self) -> Seq<char> {
        self.phrase@
    }

    /// The query's terms.
    pub closed spec fn terms_view(&self) -> Seq<Seq<char>> {
        pattern_views(self.terms@)
    }

    #[verifier::type_invariant]
    spec fn well_formed(self) -> bool {
        pattern_views(self.terms@) == words(self.phrase@)
    }

    /// Compiles a raw query: its normalised phrase and the phrase's words.
    pub fn new(raw: &str) -> (r: FuzzyQuery)
        ensures
            r.phrase_view() == normalized(trim_seq(raw@)),
            r.terms_view() == words(normalized(trim_seq(raw@))),
    {
        let phrase = normalize(trim(raw));
        let pieces = split_words(phrase.as_slice());
        let mut terms: Vec<Pattern> = Vec::new();
        let mut k: usize = 0;
        while k < pieces.len()
            invariant
                0 <= k <= pieces@.len(),
                pieces@.len() == words(phrase@).len(),
                forall|j: int|
                    0 <= j < pieces@.len() ==> (#[trigger] pieces@[j])@ == words(phrase@)[j],
                pattern_views(terms@) == words(phrase@).take(k as int),
            decreases pieces.len() - k,
        {
            let mut copy: Vec<char> = Vec::new();
            let mut i: usize = 0;
            while i < pieces[k].len()
                invariant
                    0 <= k < pieces@.len(),
                    0 <= i <= pieces@[k as int]@.len(),
                    copy@ == pieces@[k as int]@.take(i as int),
                decreases pieces@[k as int]@.len() - i,
            {
                copy.push(pieces[k][i]);
                i = i + 1;
                assert(copy@ =~= pieces@[k as int]@.take(i as int));
            }
            assert(pieces@[k as int]@.take(pieces@[k as int]@.len() as int)
                =~= pieces@[k as int]@);
            let term = Pattern::from_normalized(copy);
            let ghost tv = term@;
            assert(tv == words(phrase@)[k as int]);
            let ghost old_terms = terms@;
            assert(pattern_views(old_terms).len() == old_terms.len());
            assert(old_terms.len() == k);
            terms.push(term);
            assert(terms@[k as int]@ == tv);
            assert forall|q: int| 0 <= q < k + 1 implies pattern_views(terms@)[q] == words(
                phrase@,
            ).take(k + 1)[q] by {
                if q < k {
                    assert(terms@[q] == old_terms[q]);
                    assert(pattern_views(old_terms)[q] == words(phrase@).take(k as int)[q]);
                }
            }
            k = k + 1;
            assert(pattern_views(terms@) =~= words(phrase@).take(k as int));
        }
        assert(words(phrase@).take(words(phrase@).len() as int) =~= words(phrase@));
        FuzzyQuery { phrase: Pattern::from_normalized(phrase), terms }
    }

    pub fn phrase(&self) -> (r: &Pattern)
        ensures
            r@ == self.phrase_view(),
    {
        &self.phrase
    }

    pub fn terms(&self) -> (r: &[Pattern])
        ensures
            pattern_views(r@) == self.terms_view(),
    {
        self.terms.as_slice()
    }

    pub fn is_empty(&self) -> (r: bool)
        ensures
            r == (self.terms_view().len() == 0),
    {
        self.terms.len() == 0
    }

    pub fn is_multi_term(&self) -> (r: bool)
        ensures
            r == (self.terms_view().len() > 1),
    {
        self.terms.len() > 1
    }
}

impl Candidate {
    #[verifier::type_invariant]
    spec fn well_formed(self) -> bool {
        &&& self.normalized@ == self.chars@
        &&& self.boundaries@ == word_starts(self.chars@)
    }

    /// Normalises a raw field and marks where its words start.
    pub fn new(raw: &str) -> (r: Candidate)
        ensures
            r@ == normalized(raw@),
    {
        let chars = normalize(raw);
        let mut boundaries: Vec<bool> = Vec::new();
        let mut i: usize = 0;
        while i < chars.len()
            invariant
                0 <= i <= chars@.len(),
                boundaries@ == word_starts(chars@).take(i as int),
            decreases chars@.len() - i,
        {
            let ch = chars[i];
            let boundary = if i == 0 {
                true
            } else {
                let p = chars[i - 1];
                !is_alphanumeric(p) || (is_numeric(p) != is_numeric(ch))
            };
            boundaries.push(boundary);
            i = i + 1;
            assert(boundaries@ =~= word_starts(chars@).take(i as int));
        }
        assert(word_starts(chars@).take(chars@.len() as int) =~= word_starts(chars@));
        let text = string_from_chars(&chars);
        Candidate { normalized: text, chars, boundaries }
    }

    pub fn as_str(&self) -> (r: &str)
        ensures
            r@ == self@,
    {
        proof {
            use_type_invariant(self);
        }
        self.normalized.as_str()
    }

    pub fn chars(&self) -> (r: &[char])
        ensures
            r@ == self@,
    {
        self.chars.as_slice()
    }

    /// The number of characters, saturating at `u32::MAX`.
    pub fn char_len(&self) -> (r: u32)
        ensures
            r == if self@.len() > u32::MAX {
                u32::MAX as int
            } else {
                self@.len() as int
            },
    {
        if self.chars.len() > 4294967295usize {
            4294967295u32
        } else {
            self.chars.len() as u32
        }
    }

    /// Whether a word starts at `index`; `false` past the end.
    pub fn is_word_start(&self, index: usize) -> (r: bool)
        ensures
            r == (index < self@.len() && starts_word(self@, index as int)),
    {
        proof {
            use_type_invariant(self);
        }
        if index < self.boundaries.len() {
            self.boundaries[index]
        } else {
            false
        }
    }

    pub fn is_empty(&self) -> (r: bool)
        ensures
            r == (self@.len() == 0),
    {
        self.chars.len() == 0
    }
}

// ---------------------------------------------------------------------------
// Alignments
// ---------------------------------------------------------------------------

/// The bonus for matching at position `j` of the candidate `t`.
pub open spec fn char_bonus_spec(t: Seq<char>, j: int) -> int {
    if j == 0 {
        FIELD_START as int
    } else if 0 <= j < t.len() && starts_word(t, j) {
        WORD_BOUNDARY as int
    } else {
        0
    }
}

/// The cost of skipping `index` characters before the first match.
pub open spec fn leading_gap_spec(index: int) -> int {
    if index > 40 {
        -40
    } else {
        -index
    }
}

/// The score between two matches `d` positions apart.
pub open spec fn transition(d: int) -> int {
    if d == 1 {
        CONSECUTIVE as int
    } else {
        GAP_START + GAP_EXTENSION * (d - 2)
    }
}

/// `pos` places the first `pos.len()` pattern characters at strictly
/// increasing positions of `t` holding the same characters.
pub open spec fn is_partial_alignment(p: Seq<char>, t: Seq<char>, pos: Seq<int>) -> bool {
    &&& 0 < pos.len() <= p.len()
    &&& forall|k: int| 0 <= k < pos.len() ==> 0 <= #[trigger] pos[k] < t.len()
    &&& forall|k: int| 0 <= k < pos.len() ==> t[#[trigger] pos[k]] == p[k]
    &&& forall|a: int, b: int| 0 <= a < b < pos.len() ==> #[trigger] pos[a] < #[trigger] pos[b]
}

/// A placement of the whole pattern.
pub open spec fn is_alignment(p: Seq<char>, t: Seq<char>, pos: Seq<int>) -> bool {
    is_partial_alignment(p, t, pos) && pos.len() == p.len()
}

/// The score of a (partial) alignment.
pub open spec fn alignment_score(t: Seq<char>, pos: Seq<int>) -> int
    decreases pos.len(),
{
    if pos.len() == 0 {
        0
    } else if pos.len() == 1 {
        leading_gap_spec(pos[0]) + MATCH + char_bonus_spec(t, pos[0])
    } else {
        alignment_score(t, pos.drop_last()) + transition(pos.last() - pos[pos.len() - 2]) + MATCH
            + char_bonus_spec(t, pos.last())
    }
}

/// Some alignment of the whole pattern exists.
pub open spec fn has_alignment(p: Seq<char>, t: Seq<char>) -> bool {
    exists|pos: Seq<int>| is_alignment(p, t, pos)
}

/// `v` is the score of the best alignment.
pub open spec fn is_best_alignment_score(p: Seq<char>, t: Seq<char>, v: int) -> bool {
    &&& exists|pos: Seq<int>| is_alignment(p, t, pos) && alignment_score(t, pos) == v
    &&& forall|pos: Seq<int>| is_alignment(p, t, pos) ==> alignment_score(t, pos) <= v
}

/// The best alignment score (meaningful when some alignment exists).
pub open spec fn best_alignment_score(p: Seq<char>, t: Seq<char>) -> int {
    choose|v: int| is_best_alignment_score(p, t, v)
}

/// The intent bonus: an exact field, a prefix, or a whole word.
pub open spec fn intent_bonus(p: Seq<char>, t: Seq<char>) -> int {
    if p == t {
        EXACT_FIELD_BONUS as int
    } else if is_prefix(p, t) {
        PREFIX_BONUS as int
    } else if has_word(t, p) {
        EXACT_WORD_BONUS as int
    } else {
        0
    }
}

/// The penalty for a long field.
pub open spec fn length_penalty_spec(len: int) -> int {
    if len > 48 {
        -48
    } else {
        -len
    }
}

/// A score clamped into `u32`.
pub open spec fn clamp_u32(v: int) -> u32 {
    if v < 0 {
        0
    } else if v > u32::MAX {
        u32::MAX
    } else {
        v as u32
    }
}

/// The score of a pattern against a candidate: `None` when the pattern's
/// characters do not occur in order, `Some(0)` for an empty pattern.
pub open spec fn fuzzy_score(p: Seq<char>, t: Seq<char>) -> Option<u32> {
    if p.len() == 0 {
        Some(0)
    } else if !has_alignment(p, t) {
        None
    } else {
        Some(
            clamp_u32(best_alignment_score(p, t) + intent_bonus(p, t) + length_penalty_spec(
                t.len() as int,
            )),
        )
    }
}

// ---------------------------------------------------------------------------
// The dynamic programme behind the best alignment
// ---------------------------------------------------------------------------

pub open spec fn opt_add(a: Option<int>, d: int) -> Option<int> {
    match a {
        Some(v) => Some(v + d),
        None => None,
    }
}

pub open spec fn opt_max(a: Option<int>, b: Option<int>) -> Option<int> {
    match (a, b) {
        (Some(x), Some(y)) => Some(if x >= y {
            x
        } else {
            y
        }),
        (Some(x), None) => Some(x),
        (None, y) => y,
    }
}

/// Row `i` may use column `j`: enough characters remain on both sides.
pub open spec fn matchable(p: Seq<char>, t: Seq<char>, i: int, j: int) -> bool {
    i <= j && j <= t.len() - (p.len() - i)
}

/// The best score of placing the first `i + 1` pattern characters with the
/// last one at position `j`.
pub open spec fn cell(p: Seq<char>, t: Seq<char>, i: int, j: int) -> Option<int>
    decreases i, j, 1int,
{
    if i < 0 || j < 0 || i >= p.len() || j >= t.len() || !matchable(p, t, i, j) || t[j] != p[i] {
        None
    } else if i == 0 {
        Some(leading_gap_spec(j) + MATCH + char_bonus_spec(t, j))
    } else {
        let consecutive = if j >= 1 {
            opt_add(cell(p, t, i - 1, j - 1), CONSECUTIVE as int)
        } else {
            None
        };
        opt_add(opt_max(consecutive, gap(p, t, i, j)), MATCH + char_bonus_spec(t, j))
    }
}

/// The best score available to row `i` at column `j` after a gap of at
/// least one character.
pub open spec fn gap(p: Seq<char>, t: Seq<char>, i: int, j: int) -> Option<int>
    decreases i, j, 0int,
{
    if i <= 0 || j <= 1 {
        None
    } else {
        opt_max(
            opt_add(gap(p, t, i, j - 1), GAP_EXTENSION as int),
            opt_add(cell(p, t, i - 1, j - 2), GAP_START as int),
        )
    }
}

/// The best cell among the first `n` columns of row `i`.
pub open spec fn row_max(p: Seq<char>, t: Seq<char>, i: int, n: int) -> Option<int>
    decreases n,
{
    if n <= 0 {
        None
    } else {
        opt_max(row_max(p, t, i, n - 1), cell(p, t, i, n - 1))
    }
}

/// The result of the dynamic programme.
pub open spec fn dp_best(p: Seq<char>, t: Seq<char>) -> Option<int> {
    if p.len() == 0 {
        Some(0)
    } else if t.len() < p.len() {
        None
    } else {
        row_max(p, t, p.len() - 1, t.len() as int)
    }
}

/// The value of row `i - 1` as row `i` sees it.
pub open spec fn prev_cell(p: Seq<char>, t: Seq<char>, i: int, k: int) -> Option<int> {
    if i == 0 {
        None
    } else {
        cell(p, t, i - 1, k)
    }
}

/// The gap value carried into column `c`.
pub open spec fn gap_before(p: Seq<char>, t: Seq<char>, i: int, c: int) -> Option<int> {
    if c == 0 {
        None
    } else {
        gap(p, t, i, c - 1)
    }
}

proof fn lemma_bounds(p: Seq<char>, t: Seq<char>, i: int, j: int)
    requires
        0 <= i,
        0 <= j,
    ensures
        cell(p, t, i, j) matches Some(v) ==> -(40 + i + j) <= v <= 64 * (i + 1),
        gap(p, t, i, j) matches Some(g) ==> -(40 + i + j) <= g <= 64 * i,
    decreases i, j,
{
    if i >= 1 && j >= 1 {
        lemma_bounds(p, t, i - 1, j - 1);
    }
    if i >= 1 && j >= 2 {
        lemma_bounds(p, t, i, j - 1);
        lemma_bounds(p, t, i - 1, j - 2);
    }
}

proof fn lemma_positions_at_least_index(p: Seq<char>, t: Seq<char>, pos: Seq<int>, k: int)
    requires
        is_partial_alignment(p, t, pos),
        0 <= k < pos.len(),
    ensures
        pos[k] >= k,
    decreases k,
{
    if k > 0 {
        lemma_positions_at_least_index(p, t, pos, k - 1);
        assert(pos[k - 1] < pos[k]);
    }
}

proof fn lemma_prefix_is_partial(p: Seq<char>, t: Seq<char>, pos: Seq<int>)
    requires
        is_partial_alignment(p, t, pos),
        pos.len() >= 2,
    ensures
        is_partial_alignment(p, t, pos.drop_last()),
{
    let q = pos.drop_last();
    assert forall|a: int, b: int| 0 <= a < b < q.len() implies #[trigger] q[a] < #[trigger] q[b] by {
        assert(pos[a] < pos[b]);
    }
    assert forall|k: int| 0 <= k < q.len() implies t[#[trigger] q[k]] == p[k] by {
        assert(q[k] == pos[k]);
    }
}

proof fn lemma_extend_partial(p: Seq<char>, t: Seq<char>, q: Seq<int>, j: int)
    requires
        is_partial_alignment(p, t, q),
        q.len() < p.len(),
        q.last() < j < t.len(),
        t[j] == p[q.len() as int],
    ensures
        is_partial_alignment(p, t, q.push(j)),
        alignment_score(t, q.push(j)) == alignment_score(t, q) + transition(j - q.last()) + MATCH
            + char_bonus_spec(t, j),
{
    let pos = q.push(j);
    assert(pos.drop_last() =~= q);
    assert forall|a: int, b: int| 0 <= a < b < pos.len() implies #[trigger] pos[a]
        < #[trigger] pos[b] by {
        if b < q.len() {
            assert(q[a] < q[b]);
        } else if a < q.len() - 1 {
            assert(q[a] < q[q.len() - 1]);
        }
    }
    assert forall|k: int| 0 <= k < pos.len() implies t[#[trigger] pos[k]] == p[k] by {
        if k < q.len() {
            assert(pos[k] == q[k]);
        }
    }
    assert forall|k: int| 0 <= k < pos.len() implies 0 <= #[trigger] pos[k] < t.len() by {
        if k < q.len() {
            assert(pos[k] == q[k]);
        }
    }
}

/// A placement of the first `i + 1` characters ending at `j`.
pub open spec fn ends_at(p: Seq<char>, t: Seq<char>, pos: Seq<int>, i: int, j: int) -> bool {
    is_partial_alignment(p, t, pos) && pos.len() == i + 1 && pos.last() == j
}

/// `cell(i, j)` is the best score of the placements ending at `j`, and is
/// `None` exactly when there are none.
proof fn lemma_cell_is_best(p: Seq<char>, t: Seq<char>, i: int, j: int)
    requires
        0 <= i < p.len(),
        0 <= j < t.len(),
        matchable(p, t, i, j),
    ensures
        cell(p, t, i, j) matches Some(v) ==> (exists|pos: Seq<int>|
            ends_at(p, t, pos, i, j) && alignment_score(t, pos) == v) && (forall|pos: Seq<int>|
            ends_at(p, t, pos, i, j) ==> alignment_score(t, pos) <= v),
        cell(p, t, i, j) is None ==> forall|pos: Seq<int>| !ends_at(p, t, pos, i, j),
    decreases i, 1int, j,
{
    if t[j] != p[i] {
        assert forall|pos: Seq<int>| !ends_at(p, t, pos, i, j) by {
            if ends_at(p, t, pos, i, j) {
                assert(t[pos[i]] == p[i]);
            }
        }
    } else if i == 0 {
        let v = leading_gap_spec(j) + MATCH + char_bonus_spec(t, j);
        let w = seq![j];
        assert(ends_at(p, t, w, i, j));
        assert(alignment_score(t, w) == v);
        assert forall|pos: Seq<int>| ends_at(p, t, pos, i, j) implies alignment_score(t, pos)
            <= v by {
            assert(pos[0] == j);
        }
    } else {
        if j >= 1 && matchable(p, t, i - 1, j - 1) {
            lemma_cell_is_best(p, t, i - 1, j - 1);
        }
        lemma_gap_is_best(p, t, i, j);
        let bonus = MATCH + char_bonus_spec(t, j);
        let consecutive = if j >= 1 {
            opt_add(cell(p, t, i - 1, j - 1), CONSECUTIVE as int)
        } else {
            None
        };
        // every placement ending at j extends one ending at some k < j
        assert forall|pos: Seq<int>| #[trigger] ends_at(p, t, pos, i, j) implies {
            &&& cell(p, t, i, j) is Some
            &&& alignment_score(t, pos) <= cell(p, t, i, j)->0
        } by {
            let q = pos.drop_last();
            lemma_prefix_is_partial(p, t, pos);
            let k = q.last();
            assert(pos[i - 1] < pos[i]);
            assert(q[i - 1] == pos[i - 1]);
            lemma_positions_at_least_index(p, t, q, i - 1);
            assert(ends_at(p, t, q, i - 1, k));
            assert(alignment_score(t, pos) == alignment_score(t, q) + transition(j - k) + bonus);
            if k == j - 1 {
                assert(matchable(p, t, i - 1, k));
                assert(cell(p, t, i - 1, k) is Some);
            } else {
                assert(k <= j - 2);
                assert(matchable(p, t, i - 1, k));
                lemma_cell_is_best(p, t, i - 1, k);
                assert(gap(p, t, i, j) is Some);
            }
        }
        if cell(p, t, i, j) is Some {
            let v = cell(p, t, i, j)->0;
            if consecutive is Some && (gap(p, t, i, j) is None || consecutive->0 >= gap(
                p,
                t,
                i,
                j,
            )->0) {
                let q = choose|q: Seq<int>|
                    ends_at(p, t, q, i - 1, j - 1) && alignment_score(t, q) == cell(
                        p,
                        t,
                        i - 1,
                        j - 1,
                    )->0;
                lemma_extend_partial(p, t, q, j);
                assert(ends_at(p, t, q.push(j), i, j));
            } else {
                let g = gap(p, t, i, j)->0;
                let k = choose|k: int|
                    #![trigger cell(p, t, i - 1, k)]
                    0 <= k <= j - 2 && cell(p, t, i - 1, k) is Some && g == cell(
                        p,
                        t,
                        i - 1,
                        k,
                    )->0 + GAP_START + GAP_EXTENSION * (j - 2 - k);
                assert(cell(p, t, i - 1, k) is Some ==> matchable(p, t, i - 1, k));
                lemma_cell_is_best(p, t, i - 1, k);
                let q = choose|q: Seq<int>|
                    ends_at(p, t, q, i - 1, k) && alignment_score(t, q) == cell(
                        p,
                        t,
                        i - 1,
                        k,
                    )->0;
                lemma_extend_partial(p, t, q, j);
                assert(ends_at(p, t, q.push(j), i, j));
                assert(alignment_score(t, q.push(j)) == v);
            }
        }
    }
}

/// `gap(i, j)` is the best gap-based continuation over columns `k <= j - 2`.
proof fn lemma_gap_is_best(p: Seq<char>, t: Seq<char>, i: int, j: int)
    requires
        1 <= i < p.len(),
        0 <= j < t.len(),
        j <= t.len() - (p.len() - i),
    ensures
        gap(p, t, i, j) matches Some(g) ==> exists|k: int|
            #![trigger cell(p, t, i - 1, k)]
            0 <= k <= j - 2 && cell(p, t, i - 1, k) is Some && g == cell(p, t, i - 1, k)->0
                + GAP_START + GAP_EXTENSION * (j - 2 - k),
        forall|k: int|
            #![trigger cell(p, t, i - 1, k)]
            0 <= k <= j - 2 && cell(p, t, i - 1, k) is Some ==> gap(p, t, i, j) is Some
                && cell(p, t, i - 1, k)->0 + GAP_START + GAP_EXTENSION * (j - 2 - k) <= gap(
                p,
                t,
                i,
                j,
            )->0,
    decreases i, 0int, j,
{
    if j >= 2 {
        lemma_gap_is_best(p, t, i, j - 1);
        let a = opt_add(gap(p, t, i, j - 1), GAP_EXTENSION as int);
        let b = opt_add(cell(p, t, i - 1, j - 2), GAP_START as int);
        if gap(p, t, i, j) is Some {
            let g = gap(p, t, i, j)->0;
            if b is Some && (a is None || b->0 >= a->0) {
                assert(cell(p, t, i - 1, j - 2) is Some);
                assert(g == cell(p, t, i - 1, j - 2)->0 + GAP_START + GAP_EXTENSION * (j - 2 - (j
                    - 2)));
            } else {
                let g1 = gap(p, t, i, j - 1)->0;
                let k = choose|k: int|
                    #![trigger cell(p, t, i - 1, k)]
                    0 <= k <= j - 3 && cell(p, t, i - 1, k) is Some && g1 == cell(
                        p,
                        t,
                        i - 1,
                        k,
                    )->0 + GAP_START + GAP_EXTENSION * (j - 3 - k);
                assert(g == cell(p, t, i - 1, k)->0 + GAP_START + GAP_EXTENSION * (j - 2 - k));
            }
        }
    }
}

proof fn lemma_row_max(p: Seq<char>, t: Seq<char>, i: int, n: int)
    requires
        0 <= n,
    ensures
        row_max(p, t, i, n) matches Some(v) ==> exists|j: int|
            #![trigger cell(p, t, i, j)]
            0 <= j < n && cell(p, t, i, j) == Some(v),
        forall|j: int|
            #![trigger cell(p, t, i, j)]
            0 <= j < n && cell(p, t, i, j) is Some ==> row_max(p, t, i, n) is Some
                && cell(p, t, i, j)->0 <= row_max(p, t, i, n)->0,
    decreases n,
{
    if n > 0 {
        lemma_row_max(p, t, i, n - 1);
    }
}

/// The dynamic programme computes the best alignment.
proof fn lemma_dp_best_is_best_alignment(p: Seq<char>, t: Seq<char>)
    requires
        p.len() > 0,
    ensures
        dp_best(p, t) is Some <==> has_alignment(p, t),
        dp_best(p, t) matches Some(v) ==> is_best_alignment_score(p, t, v),
{
    let i = p.len() - 1;
    if t.len() < p.len() {
        assert forall|pos: Seq<int>| !is_alignment(p, t, pos) by {
            if is_alignment(p, t, pos) {
                lemma_positions_at_least_index(p, t, pos, i);
            }
        }
    } else {
        lemma_row_max(p, t, i, t.len() as int);
        assert forall|pos: Seq<int>| is_alignment(p, t, pos) implies {
            &&& dp_best(p, t) is Some
            &&& alignment_score(t, pos) <= dp_best(p, t)->0
        } by {
            let j = pos.last();
            lemma_positions_at_least_index(p, t, pos, i);
            assert(ends_at(p, t, pos, i, j));
            lemma_cell_is_best(p, t, i, j);
        }
        if dp_best(p, t) is Some {
            let v = dp_best(p, t)->0;
            let j = choose|j: int| #![trigger cell(p, t, i, j)] 0 <= j < t.len() && cell(p, t, i, j) == Some(v);
            lemma_cell_is_best(p, t, i, j);
            let pos = choose|pos: Seq<int>| ends_at(p, t, pos, i, j) && alignment_score(t, pos) == v;
            assert(is_alignment(p, t, pos));
        }
    }
}

proof fn lemma_best_score_unique(p: Seq<char>, t: Seq<char>, v: int)
    requires
        is_best_alignment_score(p, t, v),
    ensures
        best_alignment_score(p, t) == v,
{
    let w = best_alignment_score(p, t);
    assert(is_best_alignment_score(p, t, w));
    let a = choose|pos: Seq<int>| is_alignment(p, t, pos) && alignment_score(t, pos) == v;
    let b = choose|pos: Seq<int>| is_alignment(p, t, pos) && alignment_score(t, pos) == w;
    assert(alignment_score(t, a) <= w);
    assert(alignment_score(t, b) <= v);
}

/// A row with no reachable cell leaves the next row without one too.
proof fn lemma_empty_row_stays_empty(p: Seq<char>, t: Seq<char>, i: int)
    requires
        0 <= i,
        forall|k: int| #![trigger cell(p, t, i, k)] 0 <= k < t.len() ==> cell(p, t, i, k) is None,
    ensures
        forall|k: int| #![trigger cell(p, t, i + 1, k)] 0 <= k < t.len() ==> cell(p, t, i + 1, k) is None,
{
    assert forall|k: int| #![trigger cell(p, t, i + 1, k)] 0 <= k < t.len() implies cell(p, t, i + 1, k) is None by {
        lemma_gap_empty(p, t, i + 1, k);
        if k >= 1 {
            assert(cell(p, t, i, k - 1) is None);
        }
    }
}

proof fn lemma_gap_empty(p: Seq<char>, t: Seq<char>, i: int, j: int)
    requires
        1 <= i,
        0 <= j < t.len(),
        forall|k: int| #![trigger cell(p, t, i - 1, k)] 0 <= k < t.len() ==> cell(p, t, i - 1, k) is None,
    ensures
        gap(p, t, i, j) is None,
    decreases j,
{
    if j >= 2 {
        lemma_gap_empty(p, t, i, j - 1);
        assert(cell(p, t, i - 1, j - 2) is None);
    }
}

proof fn lemma_no_match_from_empty_row(p: Seq<char>, t: Seq<char>, i: int)
    requires
        0 <= i < p.len(),
        t.len() >= p.len(),
        forall|k: int| #![trigger cell(p, t, i, k)] 0 <= k < t.len() ==> cell(p, t, i, k) is None,
    ensures
        dp_best(p, t) is None,
    decreases p.len() - i,
{
    if i < p.len() - 1 {
        lemma_empty_row_stays_empty(p, t, i);
        lemma_no_match_from_empty_row(p, t, i + 1);
    } else {
        lemma_row_max(p, t, i, t.len() as int);
    }
}

fn max_option(a: Option<i128>, b: Option<i128>) -> (r: Option<i128>)
    ensures
        opt_of(r) == opt_max(opt_of(a), opt_of(b)),
{
    match (a, b) {
        (Some(x), Some(y)) => Some(
            if x >= y {
                x
            } else {
                y
            },
        ),
        (Some(x), None) => Some(x),
        (None, y) => y,
    }
}

/// An executable score as a mathematical one.
pub open spec fn opt_of(a: Option<i128>) -> Option<int> {
    match a {
        Some(v) => Some(v as int),
        None => None,
    }
}

fn leading_gap(index: usize) -> (r: i128)
    ensures
        r == leading_gap_spec(index as int),
{
    if index > 40 {
        -40
    } else {
        -(index as i128)
    }
}

fn char_bonus(candidate: &Candidate, index: usize) -> (r: i128)
    ensures
        r == char_bonus_spec(candidate@, index as int),
{
    if index == 0 {
        FIELD_START
    } else if candidate.is_word_start(index) {
        WORD_BOUNDARY
    } else {
        0
    }
}

/// The best alignment score, by dynamic programming over two rolling rows.
fn best_alignment(pattern: &Pattern, candidate: &Candidate) -> (r: Option<i128>)
    ensures
        opt_of(r) == dp_best(pattern@, candidate@),
{
    let pattern_chars = pattern.chars();
    let target_chars = candidate.chars();
    let pattern_len = pattern_chars.len();
    let target_len = target_chars.len();
    let ghost p = pattern@;
    let ghost t = candidate@;

    if pattern_len == 0 {
        return Some(0);
    }
    if target_len < pattern_len {
        return None;
    }

    let mut previous_row: Vec<Option<i128>> = Vec::new();
    let mut current_row: Vec<Option<i128>> = Vec::new();
    let mut k: usize = 0;
    while k < target_len
        invariant
            0 <= k <= target_len,
            previous_row@.len() == k,
            current_row@.len() == k,
            forall|m: int| 0 <= m < k ==> #[trigger] previous_row@[m] is None,
        decreases target_len - k,
    {
        previous_row.push(None);
        current_row.push(None);
        k = k + 1;
    }

    let mut row: usize = 0;
    while row < pattern_len
        invariant
            p == pattern_chars@,
            t == target_chars@,
            p == pattern@,
            t == candidate@,
            pattern_len == p.len(),
            target_len == t.len(),
            0 < pattern_len <= target_len,
            0 <= row <= pattern_len,
            previous_row@.len() == target_len,
            current_row@.len() == target_len,
            forall|m: int|
                0 <= m < target_len ==> opt_of(#[trigger] previous_row@[m]) == prev_cell(
                    p,
                    t,
                    row as int,
                    m,
                ),
        decreases pattern_len - row,
    {
        let pattern_char = pattern_chars[row];
        let mut best_score_after_gap: Option<i128> = None;
        let mut row_has_a_match = false;

        let mut m: usize = 0;
        while m < target_len
            invariant
                0 <= m <= target_len,
                current_row@.len() == target_len,
                forall|q: int| 0 <= q < m ==> #[trigger] current_row@[q] is None,
            decreases target_len - m,
        {
            current_row.set(m, None);
            m = m + 1;
        }

        let last_matchable = target_len - (pattern_len - row);
        let mut column: usize = 0;
        while column < target_len
            invariant
                p == pattern_chars@,
                t == target_chars@,
                p == pattern@,
                t == candidate@,
                pattern_len == p.len(),
                target_len == t.len(),
                0 < pattern_len <= target_len,
                0 <= row < pattern_len,
                last_matchable == target_len - (pattern_len - row),
                pattern_char == p[row as int],
                0 <= column <= target_len,
                previous_row@.len() == target_len,
                current_row@.len() == target_len,
                forall|q: int|
                    0 <= q < target_len ==> opt_of(#[trigger] previous_row@[q]) == prev_cell(
                        p,
                        t,
                        row as int,
                        q,
                    ),
                forall|q: int|
                    0 <= q < column ==> opt_of(#[trigger] current_row@[q]) == cell(
                        p,
                        t,
                        row as int,
                        q,
                    ),
                forall|q: int| column <= q < target_len ==> #[trigger] current_row@[q] is None,
                opt_of(best_score_after_gap) == gap_before(p, t, row as int, column as int),
                row_has_a_match <==> exists|q: int|
                    #![trigger cell(p, t, row as int, q)]
                    0 <= q < column && cell(p, t, row as int, q) is Some,
            decreases target_len - column,
        {
            proof {
                lemma_bounds(p, t, row as int, column as int);
                if column >= 1 {
                    lemma_bounds(p, t, row as int, column - 1);
                }
                if row >= 1 && column >= 2 {
                    lemma_bounds(p, t, row - 1, column - 2);
                }
                if row >= 1 && column >= 1 {
                    lemma_bounds(p, t, row - 1, column - 1);
                }
            }
            if column >= 1 {
                if let Some(b) = best_score_after_gap {
                    best_score_after_gap = Some(b + GAP_EXTENSION);
                }
                if column >= 2 {
                    if let Some(g) = previous_row[column - 2] {
                        best_score_after_gap = max_option(
                            best_score_after_gap,
                            Some(g + GAP_START),
                        );
                    }
                }
            }
            assert(opt_of(best_score_after_gap) == gap(p, t, row as int, column as int));

            if row <= column && column <= last_matchable && target_chars[column] == pattern_char {
                let score_before_match = if row == 0 {
                    Some(leading_gap(column))
                } else {
                    let consecutive = if column >= 1 {
                        match previous_row[column - 1] {
                            Some(v) => Some(v + CONSECUTIVE),
                            None => None,
                        }
                    } else {
                        None
                    };
                    max_option(consecutive, best_score_after_gap)
                };
                if let Some(before) = score_before_match {
                    let value = before + MATCH + char_bonus(candidate, column);
                    current_row.set(column, Some(value));
                    row_has_a_match = true;
                }
            }
            assert(opt_of(current_row@[column as int]) == cell(p, t, row as int, column as int));
            column = column + 1;
        }

        if !row_has_a_match {
            proof {
                lemma_no_match_from_empty_row(p, t, row as int);
            }
            return None;
        }

        std::mem::swap(&mut previous_row, &mut current_row);
        row = row + 1;
    }

    let mut best: Option<i128> = None;
    let mut j: usize = 0;
    while j < target_len
        invariant
            p == pattern_chars@,
            t == target_chars@,
            p == pattern@,
            t == candidate@,
            pattern_len == p.len(),
            target_len == t.len(),
            0 < pattern_len <= target_len,
            previous_row@.len() == target_len,
            forall|m: int|
                0 <= m < target_len ==> opt_of(#[trigger] previous_row@[m]) == prev_cell(
                    p,
                    t,
                    pattern_len as int,
                    m,
                ),
            0 <= j <= target_len,
            opt_of(best) == row_max(p, t, pattern_len - 1, j as int),
        decreases target_len - j,
    {
        best = max_option(best, previous_row[j]);
        j = j + 1;
    }
    best
}

/// The length penalty of a candidate.
fn length_penalty(candidate: &Candidate) -> (r: i128)
    ensures
        r == length_penalty_spec(candidate@.len() as int),
{
    let len = candidate.chars().len();
    if len > 48 {
        -48
    } else {
        -(len as i128)
    }
}

/// Scores `pattern` against `candidate`.
pub fn score(pattern: &Pattern, candidate: &Candidate) -> (r: Option<u32>)
    ensures
        r == fuzzy_score(pattern@, candidate@),
{
    if pattern.is_empty() {
        return Some(0);
    }
    let pattern_len = pattern.len();
    let candidate_len = candidate.chars().len();
    let ghost p = pattern@;
    let ghost t = candidate@;
    let best = best_alignment(pattern, candidate);
    proof {
        lemma_dp_best_is_best_alignment(p, t);
    }
    let mut total = match best {
        Some(v) => v,
        None => {
            return None;
        },
    };
    proof {
        lemma_best_score_unique(p, t, total as int);
        lemma_dp_bounds(p, t);
    }
    let pattern_chars = pattern.chars();
    let candidate_chars = candidate.chars();
    if chars_equal(pattern_chars, candidate_chars) {
        total = total + EXACT_FIELD_BONUS;
    } else if starts_with(candidate_chars, pattern_chars) {
        total = total + PREFIX_BONUS;
    } else if contains_word(candidate_chars, pattern_chars) {
        total = total + EXACT_WORD_BONUS;
    }
    total = total + length_penalty(candidate);
    if total < 0 {
        Some(0)
    } else if total > 4294967295i128 {
        Some(4294967295u32)
    } else {
        Some(total as u32)
    }
}

proof fn lemma_dp_bounds(p: Seq<char>, t: Seq<char>)
    requires
        p.len() > 0,
        p.len() <= usize::MAX,
        t.len() <= usize::MAX,
    ensures
        dp_best(p, t) matches Some(v) ==> -(40 + 2 * usize::MAX) <= v <= 64 * (usize::MAX + 1),
{
    lemma_row_max(p, t, p.len() - 1, t.len() as int);
    if t.len() >= p.len() && dp_best(p, t) is Some {
        let v = dp_best(p, t)->0;
        let j = choose|j: int| #![trigger cell(p, t, p.len() - 1, j)] 0 <= j < t.len() && cell(p, t, p.len() - 1, j) == Some(v);
        lemma_bounds(p, t, p.len() - 1, j);
    }
}

/// Scores a raw pattern against a raw field.
pub fn subsequence_score(pattern: &str, target: &str) -> (r: Option<u32>)
    ensures
        r == fuzzy_score(normalized(pattern@), normalized(target@)),
{
    score(&Pattern::new(pattern), &Candidate::new(target))
}

} // verus!
