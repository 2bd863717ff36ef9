//! Characters, words, and the strings assembled from them.
//!
//! Text is modelled as `Seq<char>`, the view of `str` and `String`.

use vstd::prelude::*;
use vstd::std_specs::iter::IteratorSpec;

verus! {

/// Assumed of the standard library, not proved here: `String::push` leaves
/// the string as it was, with `ch` added at its end.
pub assume_specification[ String::push ](string: &mut String, ch: char)
    ensures
        final(string)@ == old(string)@.push(ch),
;

/// The characters with the Unicode `White_Space` property.
pub open spec fn whitespace(c: char) -> bool {
    let n = c as u32;
    ||| 0x09 <= n <= 0x0D
    ||| n == 0x20
    ||| n == 0x85
    ||| n == 0xA0
    ||| n == 0x1680
    ||| 0x2000 <= n <= 0x200A
    ||| n == 0x2028
    ||| n == 0x2029
    ||| n == 0x202F
    ||| n == 0x205F
    ||| n == 0x3000
}

/// Length of the longest prefix of `s` that holds no whitespace.
pub open spec fn word_len(s: Seq<char>) -> nat
    decreases s.len(),
{
    if s.len() == 0 || whitespace(s[0]) {
        0
    } else {
        1 + word_len(s.skip(1))
    }
}

/// The words of `s`: its maximal runs of non-whitespace characters, from
/// left to right.
pub open spec fn tokens(s: Seq<char>) -> Seq<Seq<char>>
    decreases s.len(),
{
    if s.len() == 0 {
        Seq::empty()
    } else if whitespace(s[0]) {
        tokens(s.skip(1))
    } else {
        proof {
            lemma_word_len_bounds(s);
        }
        seq![s.take(word_len(s) as int)] + tokens(s.skip(word_len(s) as int))
    }
}

/// The words of `words` with a single space between neighbours.
pub open spec fn joined(words: Seq<Seq<char>>) -> Seq<char>
    decreases words.len(),
{
    if words.len() == 0 {
        Seq::empty()
    } else if words.len() == 1 {
        words[0]
    } else {
        joined(words.drop_last()) + seq![' '] + words.last()
    }
}

/// A word: at least one character, and no whitespace.
pub open spec fn word(w: Seq<char>) -> bool {
    w.len() > 0 && forall|i: int| 0 <= i < w.len() ==> !whitespace(#[trigger] w[i])
}

/// A word never runs past the end of the text, and a text that starts with
/// a non-whitespace character starts with a word of at least that character.
pub proof fn lemma_word_len_bounds(s: Seq<char>)
    ensures
        word_len(s) <= s.len(),
        s.len() > 0 && !whitespace(s[0]) ==> word_len(s) >= 1,
    decreases s.len(),
{
    if s.len() > 0 && !whitespace(s[0]) {
        lemma_word_len_bounds(s.skip(1));
    }
}

/// The first `word_len(s)` characters of `s` hold no whitespace, and the
/// one after them, if there is one, is whitespace.
pub proof fn lemma_word_len_is_maximal(s: Seq<char>)
    ensures
        forall|i: int| 0 <= i < word_len(s) ==> !whitespace(#[trigger] s[i]),
        word_len(s) < s.len() ==> whitespace(s[word_len(s) as int]),
    decreases s.len(),
{
    lemma_word_len_bounds(s);
    if s.len() > 0 && !whitespace(s[0]) {
        let tail = s.skip(1);
        lemma_word_len_is_maximal(tail);
        lemma_word_len_bounds(tail);
        assert forall|i: int| 0 <= i < word_len(s) implies !whitespace(#[trigger] s[i]) by {
            if i > 0 {
                assert(s[i] == tail[i - 1]);
            }
        }
    }
}

/// A run of non-whitespace characters does not reach past whitespace: where
/// `b` is empty or starts with whitespace, the first run of `a + b` is the
/// first run of `a`.
pub proof fn lemma_word_len_concat(a: Seq<char>, b: Seq<char>)
    requires
        b.len() == 0 || whitespace(b[0]),
    ensures
        word_len(a + b) == word_len(a),
    decreases a.len(),
{
    if a.len() == 0 {
        assert(a + b == b);
    } else if !whitespace(a[0]) {
        lemma_word_len_concat(a.skip(1), b);
        assert((a + b).skip(1) == a.skip(1) + b);
    }
}

/// Text can be split at whitespace: where `b` is empty or starts with
/// whitespace, the tokens of `a + b` are those of `a`, then those of `b`.
pub proof fn lemma_tokens_concat(a: Seq<char>, b: Seq<char>)
    requires
        b.len() == 0 || whitespace(b[0]),
    ensures
        tokens(a + b) == tokens(a) + tokens(b),
    decreases a.len(),
{
    if a.len() == 0 {
        assert(a + b == b);
    } else if whitespace(a[0]) {
        lemma_tokens_concat(a.skip(1), b);
        assert((a + b).skip(1) == a.skip(1) + b);
    } else {
        let n = word_len(a) as int;
        lemma_word_len_bounds(a);
        lemma_word_len_concat(a, b);
        lemma_tokens_concat(a.skip(n), b);
        assert((a + b).take(n) == a.take(n));
        assert((a + b).skip(n) == a.skip(n) + b);
    }
}

/// A word is its own only token.
pub proof fn lemma_tokens_of_word(w: Seq<char>)
    requires
        word(w),
    ensures
        word_len(w) == w.len(),
        tokens(w) == seq![w],
{
    lemma_word_len_bounds(w);
    lemma_word_len_is_maximal(w);
    let n = word_len(w) as int;
    assert(w.take(n) == w);
    assert(tokens(w.skip(n)) == Seq::<Seq<char>>::empty());
}

/// Every token is a word.
pub proof fn lemma_tokens_are_words(s: Seq<char>)
    ensures
        forall|k: int| 0 <= k < tokens(s).len() ==> word(#[trigger] tokens(s)[k]),
    decreases s.len(),
{
    if s.len() == 0 {
    } else if whitespace(s[0]) {
        lemma_tokens_are_words(s.skip(1));
        assert(tokens(s) == tokens(s.skip(1)));
    } else {
        let n = word_len(s) as int;
        lemma_word_len_bounds(s);
        lemma_word_len_is_maximal(s);
        lemma_tokens_are_words(s.skip(n));
        let first = s.take(n);
        let others = tokens(s.skip(n));
        assert(word(first)) by {
            assert forall|i: int| 0 <= i < first.len() implies !whitespace(#[trigger] first[i]) by {
                assert(first[i] == s[i]);
            }
        }
        assert(tokens(s) == seq![first] + others);
        assert forall|k: int| 0 <= k < tokens(s).len() implies word(#[trigger] tokens(s)[k]) by {
            if k > 0 {
                assert(tokens(s)[k] == others[k - 1]);
            }
        }
    }
}

/// Words that were joined come apart again: the tokens of `joined(words)`
/// are `words`.
pub proof fn lemma_tokens_of_joined(words: Seq<Seq<char>>)
    requires
        forall|k: int| 0 <= k < words.len() ==> word(#[trigger] words[k]),
    ensures
        tokens(joined(words)) == words,
    decreases words.len(),
{
    if words.len() == 0 {
    } else if words.len() == 1 {
        lemma_tokens_of_word(words[0]);
    } else {
        let earlier = words.drop_last();
        let last = words.last();
        let tail = seq![' '] + last;
        assert forall|k: int| 0 <= k < earlier.len() implies word(#[trigger] earlier[k]) by {
            assert(earlier[k] == words[k]);
        }
        lemma_tokens_of_joined(earlier);
        assert(joined(words) == joined(earlier) + tail);
        lemma_tokens_concat(joined(earlier), tail);
        assert(tail.skip(1) == last);
        lemma_tokens_of_word(last);
    }
}

/// Tells whether `c` is a whitespace character.
pub fn is_whitespace(c: char) -> (b: bool)
    ensures
        b == whitespace(c),
{
    let n: u32 = c as u32;
    (0x09 <= n && n <= 0x0D) || n == 0x20 || n == 0x85 || n == 0xA0 || n == 0x1680 || (0x2000 <= n
        && n <= 0x200A) || n == 0x2028 || n == 0x2029 || n == 0x202F || n == 0x205F || n == 0x3000
}

/// The characters of `text`, in order.
pub fn chars_of(text: &str) -> (chars: Vec<char>)
    ensures
        chars@ == text@,
{
    let mut chars: Vec<char> = Vec::new();
    for c in it: text.chars()
        invariant
            chars@ == it.seq().take(it.index() as int),
    {
        chars.push(c);
    }
    chars
}

/// Tells whether `a` and `b` hold the same characters.
pub fn text_equals(a: &str, b: &str) -> (same: bool)
    ensures
        same == (a@ == b@),
{
    let mut left = a.chars();
    let mut right = b.chars();
    let ghost mut n: int = 0;
    loop
        invariant
            0 <= n <= a@.len(),
            n <= b@.len(),
            left.obeys_prophetic_iter_laws(),
            right.obeys_prophetic_iter_laws(),
            left.remaining() == a@.skip(n),
            right.remaining() == b@.skip(n),
            a@.take(n) == b@.take(n),
        decreases a@.len() - n,
    {
        let x = left.next();
        let y = right.next();
        match (x, y) {
            (None, None) => {
                assert(a@.take(n) == a@);
                assert(b@.take(n) == b@);
                return true;
            },
            (Some(c), Some(d)) => {
                if c != d {
                    assert(a@[n] != b@[n]);
                    return false;
                }
                proof {
                    assert(a@.take(n + 1) == a@.take(n).push(a@[n]));
                    assert(b@.take(n + 1) == b@.take(n).push(b@[n]));
                    n = n + 1;
                }
            },
            _ => {
                return false;
            },
        }
    }
}

/// Splits `text` into its words, dropping all whitespace.
pub fn split_whitespace(text: &str) -> (words: Vec<String>)
    ensures
        words.deep_view() == tokens(text@),
{
    let chars = chars_of(text);
    let mut words: Vec<String> = Vec::new();
    let mut i: usize = 0;
    assert(text@.skip(0) == text@);
    while i < chars.len()
        invariant
            chars@ == text@,
            i <= chars.len(),
            tokens(text@) == words.deep_view() + tokens(text@.skip(i as int)),
        decreases chars.len() - i,
    {
        let ghost rest = text@.skip(i as int);
        if is_whitespace(chars[i]) {
            assert(rest.skip(1) == text@.skip(i + 1));
            i += 1;
        } else {
            let start: usize = i;
            let mut word = String::new();
            while i < chars.len() && !is_whitespace(chars[i])
                invariant
                    chars@ == text@,
                    start <= i <= chars.len(),
                    word@ == text@.subrange(start as int, i as int),
                    word_len(text@.skip(start as int)) == (i - start) + word_len(
                        text@.skip(i as int),
                    ),
                decreases chars.len() - i,
            {
                assert(text@.skip(i as int).skip(1) == text@.skip(i + 1));
                word.push(chars[i]);
                i += 1;
            }
            proof {
                let n = (i - start) as int;
                assert(rest.take(n) == word@);
                assert(rest.skip(n) == text@.skip(i as int));
            }
            let ghost before = words.deep_view();
            words.push(word);
            assert(words.deep_view() == before + seq![word@]);
        }
    }
    words
}

/// Puts the words back together, with one space between neighbours.
pub fn join_with_spaces(words: &[String]) -> (text: String)
    ensures
        text@ == joined(words.deep_view()),
{
    let mut text = String::new();
    let mut k: usize = 0;
    while k < words.len()
        invariant
            k <= words.len(),
            text@ == joined(words.deep_view().take(k as int)),
        decreases words.len() - k,
    {
        assert(words.deep_view().take(k + 1).drop_last() == words.deep_view().take(k as int));
        if k > 0 {
            text.push(' ');
        }
        text.append(words[k].as_str());
        k += 1;
    }
    assert(words.deep_view().take(k as int) == words.deep_view());
    text
}

} // verus!
