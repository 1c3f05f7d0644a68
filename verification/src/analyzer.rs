//! Content analysis: estimated reading time from the raw word count of the
//! body text. A word is a maximal run of non-whitespace characters; the
//! estimate is the word count divided by 200 and rounded up, never below one
//! minute.

use vstd::prelude::*;
use vstd::arithmetic::div_mod::lemma_div_is_ordered;
use crate::text::chars_vec;

verus! {

/// A character that separates words.
pub open spec fn is_word_sep(c: char) -> bool {
    c == ' ' || c == '\t' || c == '\r' || c == '\n'
}

/// Words begun in `s` when the previous character was part of a word iff
/// `in_word`.
pub open spec fn count_words_from(s: Seq<char>, in_word: bool) -> nat
    decreases s.len(),
{
    if s.len() == 0 {
        0
    } else {
        let w = !is_word_sep(s[0]);
        (if w && !in_word {
            1nat
        } else {
            0nat
        }) + count_words_from(s.drop_first(), w)
    }
}

/// The number of whitespace-separated words of `s`.
pub open spec fn word_count(s: Seq<char>) -> nat {
    count_words_from(s, false)
}

/// Reading time in minutes: the word count over 200, rounded up, at least 1.
pub open spec fn spec_reading_time(s: Seq<char>) -> nat {
    if word_count(s) == 0 {
        1
    } else {
        ((word_count(s) - 1) / 200 + 1) as nat
    }
}

fn word_sep(c: char) -> (b: bool)
    ensures
        b == is_word_sep(c),
{
    c == ' ' || c == '\t' || c == '\r' || c == '\n'
}

/// Estimated minutes to read `body`: `ceil(word_count / 200)`, floored at 1.
pub fn reading_time(body: &str) -> (t: u64)
    ensures
        t as nat == spec_reading_time(body@),
        t >= 1,
{
    let s = chars_vec(body);
    let mut count: u64 = 0;
    let mut in_word = false;
    let mut i: usize = 0;
    proof {
        assert(s@.skip(0) =~= s@);
    }
    while i < s.len()
        invariant
            i <= s@.len(),
            s@ == body@,
            count <= i,
            word_count(body@) == count + count_words_from(s@.skip(i as int), in_word),
        decreases s@.len() - i,
    {
        let c = s[i];
        let w = !word_sep(c);
        proof {
            assert(s@.skip(i as int)[0] == s@[i as int]);
            assert(s@.skip(i as int).drop_first() =~= s@.skip(i + 1 as int));
        }
        if w && !in_word {
            count = count + 1;
        }
        in_word = w;
        i += 1;
    }
    proof {
        assert(s@.skip(s@.len() as int) =~= Seq::<char>::empty());
    }
    if count == 0 {
        1
    } else {
        (count - 1) / 200 + 1
    }
}

proof fn lemma_count_words_append(s: Seq<char>, ext: Seq<char>, in_word: bool)
    ensures
        count_words_from(s + ext, in_word) >= count_words_from(s, in_word),
    decreases s.len(),
{
    if s.len() == 0 {
        assert(s + ext =~= ext);
    } else {
        assert((s + ext)[0] == s[0]);
        assert((s + ext).drop_first() =~= s.drop_first() + ext);
        lemma_count_words_append(s.drop_first(), ext, !is_word_sep(s[0]));
    }
}

/// Appending text to a body never lowers its word count.
pub proof fn lemma_word_count_monotone(body: Seq<char>, ext: Seq<char>)
    ensures
        word_count(body + ext) >= word_count(body),
{
    lemma_count_words_append(body, ext, false);
}

/// Appending text to a body never lowers its reading time, and a reading time
/// is never below one minute.
pub proof fn lemma_reading_time_monotone(body: Seq<char>, ext: Seq<char>)
    ensures
        spec_reading_time(body + ext) >= spec_reading_time(body),
        spec_reading_time(body) >= 1,
{
    lemma_word_count_monotone(body, ext);
    let w1 = word_count(body);
    let w2 = word_count(body + ext);
    if w1 > 0 {
        lemma_div_is_ordered(w1 - 1, w2 - 1, 200);
    }
}

} // verus!
