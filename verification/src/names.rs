//! The application's name and the file names derived from it.

use vstd::prelude::*;

use crate::text::{char_is_whitespace, chars_of, lowercase_str, str_lowercase, string_from_chars};

verus! {

/// The application's name.
pub const APP_NAME: &'static str = "Lyre";

/// The white-space separated words of `s`, in order.
pub open spec fn whitespace_words(s: Seq<char>) -> Seq<Seq<char>>
    decreases s.len(),
{
    if s.len() == 0 {
        Seq::empty()
    } else {
        let w = whitespace_words(s.drop_last());
        let c = s.last();
        if char_is_whitespace(c) {
            w
        } else if s.len() >= 2 && !char_is_whitespace(s[s.len() - 2]) {
            w.update(w.len() - 1, w.last().push(c))
        } else {
            w.push(seq![c])
        }
    }
}

/// `words` joined by hyphens.
pub open spec fn join_with_hyphens(words: Seq<Seq<char>>) -> Seq<char>
    decreases words.len(),
{
    if words.len() == 0 {
        Seq::empty()
    } else if words.len() == 1 {
        words[0]
    } else {
        join_with_hyphens(words.drop_last()) + seq!['-'] + words.last()
    }
}

/// The kebab-case form of `s`: its words in lower case, joined by hyphens.
pub open spec fn kebab_spec(s: Seq<char>) -> Seq<char> {
    join_with_hyphens(whitespace_words(s).map_values(|w: Seq<char>| str_lowercase(w)))
}

proof fn lemma_words_nonempty(s: Seq<char>)
    ensures
        forall|i: int| 0 <= i < whitespace_words(s).len() ==> #[trigger] whitespace_words(s)[i].len() > 0,
        s.len() > 0 && !char_is_whitespace(s.last()) ==> whitespace_words(s).len() > 0,
    decreases s.len(),
{
    if s.len() > 0 {
        lemma_words_nonempty(s.drop_last());
        if s.len() >= 2 && !char_is_whitespace(s[s.len() - 2]) && !char_is_whitespace(s.last()) {
            assert(s.drop_last().last() == s[s.len() - 2]);
        }
    }
}

/// The words of `s` split at white space.
fn split_whitespace_words(s: &str) -> (r: Vec<Vec<char>>)
    ensures
        r@.len() == whitespace_words(s@).len(),
        forall|i: int| 0 <= i < r@.len() ==> (#[trigger] r@[i])@ == whitespace_words(s@)[i],
{
    let chars = chars_of(s);
    let mut words: Vec<Vec<char>> = Vec::new();
    let mut i: usize = 0;
    while i < chars.len()
        invariant
            i <= chars@.len(),
            chars@ == s@,
            words@.len() == whitespace_words(chars@.take(i as int)).len(),
            forall|k: int| 0 <= k < words@.len() ==> (#[trigger] words@[k])@ == whitespace_words(chars@.take(i as int))[k],
        decreases chars@.len() - i,
    {
        let c = chars[i];
        let ghost prev = chars@.take(i as int);
        let ghost next = chars@.take(i + 1);
        proof {
            assert(next.drop_last() =~= prev);
            assert(next.last() == c);
            lemma_words_nonempty(prev);
        }
        if !crate::text::is_whitespace(c) {
            if i > 0 && !crate::text::is_whitespace(chars[i - 1]) {
                proof {
                    assert(next[next.len() - 2] == chars@[i - 1]);
                    assert(prev.last() == chars@[i - 1]);
                }
                let ghost before = words@;
                let last = words.len() - 1;
                let mut word = words.remove(last);
                word.push(c);
                words.push(word);
                proof {
                    let w = whitespace_words(prev);
                    assert(whitespace_words(next) == w.update(w.len() - 1, w.last().push(c)));
                    assert forall|k: int| 0 <= k < words@.len() implies (#[trigger] words@[k])@ == whitespace_words(next)[k] by {
                        if k < words@.len() - 1 {
                            assert(words@[k] == before[k]);
                        }
                    }
                }
            } else {
                let mut word: Vec<char> = Vec::new();
                word.push(c);
                words.push(word);
                proof {
                    if i > 0 {
                        assert(next[next.len() - 2] == chars@[i - 1]);
                    }
                    assert(word@ =~= seq![c]);
                }
            }
        }
        i = i + 1;
    }
    assert(chars@.take(chars@.len() as int) =~= chars@);
    words
}

/// The kebab-case form of `s`: its white-space separated words in lower
/// case, joined by hyphens.
pub fn kebab(s: &str) -> (r: String)
    ensures
        r@ == kebab_spec(s@),
{
    let words = split_whitespace_words(s);
    let ghost lowered = whitespace_words(s@).map_values(|w: Seq<char>| str_lowercase(w));
    let mut out: Vec<char> = Vec::new();
    let mut k: usize = 0;
    assert(lowered.take(0) =~= Seq::<Seq<char>>::empty());
    while k < words.len()
        invariant
            k <= words@.len(),
            words@.len() == whitespace_words(s@).len(),
            forall|i: int| 0 <= i < words@.len() ==> (#[trigger] words@[i])@ == whitespace_words(s@)[i],
            lowered == whitespace_words(s@).map_values(|w: Seq<char>| str_lowercase(w)),
            out@ == join_with_hyphens(lowered.take(k as int)),
        decreases words@.len() - k,
    {
        let word = string_from_chars(&words[k]);
        let lower = chars_of(lowercase_str(word.as_str()).as_str());
        assert(lower@ == lowered[k as int]);
        let ghost before = out@;
        if k > 0 {
            out.push('-');
        }
        let mut j: usize = 0;
        let ghost mid = out@;
        while j < lower.len()
            invariant
                j <= lower@.len(),
                out@ == mid + lower@.take(j as int),
            decreases lower@.len() - j,
        {
            out.push(lower[j]);
            j = j + 1;
            assert(out@ =~= mid + lower@.take(j as int));
        }
        assert(lower@.take(lower@.len() as int) =~= lower@);
        k = k + 1;
        proof {
            let t = lowered.take(k as int);
            assert(t.drop_last() =~= lowered.take(k - 1));
            assert(t.last() == lowered[k - 1]);
            if k == 1 {
                assert(t.len() == 1);
                assert(out@ =~= t[0]);
            } else {
                assert(out@ =~= before + seq!['-'] + t.last());
            }
        }
    }
    assert(lowered.take(lowered.len() as int) =~= lowered);
    string_from_chars(&out)
}

/// The application's name in kebab case.
pub fn kebab_case() -> (r: String)
    ensures
        r@ == kebab_spec(APP_NAME@),
{
    kebab(APP_NAME)
}

/// The name of the file the library's scan is cached in.
pub fn cache_file_name() -> (r: String)
    ensures
        r@ == "."@ + kebab_spec(APP_NAME@) + "-cache.json"@,
{
    let out = ".".to_string();
    let name = kebab_case();
    let out = out.concat(name.as_str());
    out.concat("-cache.json")
}

/// The name of the file the playlists are saved in.
pub fn playlists_file_name() -> (r: String)
    ensures
        r@ == "."@ + kebab_spec(APP_NAME@) + "-playlists.json"@,
{
    let out = ".".to_string();
    let name = kebab_case();
    let out = out.concat(name.as_str());
    out.concat("-playlists.json")
}

} // verus!
