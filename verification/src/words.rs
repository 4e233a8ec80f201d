//! Word-level text utilities: the pig-latin transformation of a single word,
//! and splitting a line into whitespace-separated words.

use vstd::prelude::*;
use vstd::string::StrSliceExecFns;
use vstd::string::StringExecFns;

verus! {

/// Is `c` one of the vowels the transformation recognises?
pub open spec fn is_vowel(c: char) -> bool {
    c == 'a' || c == 'e' || c == 'i' || c == 'o' || c == 'u' || c == 'y'
}

/// The pig-latin form of a non-empty word: a word starting with a vowel gets
/// `-hay` appended; otherwise its first character moves between the dash and
/// the `ay` ending.
pub open spec fn pig_latin(w: Seq<char>) -> Seq<char>
    recommends
        w.len() > 0,
{
    if is_vowel(w[0]) {
        w + "-hay"@
    } else {
        w.skip(1) + "-"@ + w.take(1) + "ay"@
    }
}

/// Converts one word to pig latin.
pub fn task2(word: &str) -> (r: String)
    requires
        word@.len() > 0,
    ensures
        r@ == pig_latin(word@),
{
    let c = word.get_char(0);
    if c == 'a' || c == 'e' || c == 'i' || c == 'o' || c == 'u' || c == 'y' {
        word.to_owned().concat("-hay")
    } else {
        let n = word.unicode_len();
        let tail = word.substring_char(1, n);
        let head = word.substring_char(0, 1);
        tail.to_owned().concat("-").concat(head).concat("ay")
    }
}

/// Is `c` a whitespace separator between words?
pub open spec fn is_space(c: char) -> bool {
    c == ' ' || c == '\t' || c == '\n' || c == '\r'
}

fn is_space_char(c: char) -> (r: bool)
    ensures
        r == is_space(c),
{
    c == ' ' || c == '\t' || c == '\n' || c == '\r'
}

/// Where the word starting at `i` ends: the first position at or after `i`
/// holding whitespace, or the end of the text.
pub open spec fn token_end(s: Seq<char>, i: int) -> int
    recommends
        0 <= i <= s.len(),
    decreases s.len() - i,
{
    if i >= s.len() || is_space(s[i]) {
        i
    } else {
        token_end(s, i + 1)
    }
}

proof fn lemma_token_end_bounds(s: Seq<char>, i: int)
    requires
        0 <= i <= s.len(),
    ensures
        i <= token_end(s, i) <= s.len(),
        i < s.len() && !is_space(s[i]) ==> i < token_end(s, i),
    decreases s.len() - i,
{
    if i < s.len() && !is_space(s[i]) {
        lemma_token_end_bounds(s, i + 1);
    }
}

/// The whitespace-separated words of `s` from position `i` on, in order.
pub open spec fn tokens_from(s: Seq<char>, i: int) -> Seq<Seq<char>>
    recommends
        0 <= i <= s.len(),
    decreases s.len() - i,
    when 0 <= i <= s.len()
    via tokens_from_decreases
{
    if i >= s.len() {
        Seq::empty()
    } else if is_space(s[i]) {
        tokens_from(s, i + 1)
    } else {
        seq![s.subrange(i, token_end(s, i))] + tokens_from(s, token_end(s, i))
    }
}

#[via_fn]
proof fn tokens_from_decreases(s: Seq<char>, i: int) {
    if 0 <= i < s.len() && !is_space(s[i]) {
        lemma_token_end_bounds(s, i);
    }
}

/// The whitespace-separated words of `s`, in order.
pub open spec fn tokens_of(s: Seq<char>) -> Seq<Seq<char>> {
    tokens_from(s, 0)
}

/// Splits a line into its whitespace-separated words.
pub fn split_words(s: &str) -> (r: Vec<String>)
    ensures
        r@.map_values(|t: String| t@) == tokens_of(s@),
{
    let n = s.unicode_len();
    let mut toks: Vec<String> = Vec::new();
    let mut i: usize = 0;
    while i < n
        invariant
            n == s@.len(),
            i <= n,
            tokens_from(s@, 0) == toks@.map_values(|t: String| t@) + tokens_from(s@, i as int),
        decreases n - i,
    {
        let ghost i0 = i as int;
        let c = s.get_char(i);
        if is_space_char(c) {
            proof {
                assert(tokens_from(s@, i0) == tokens_from(s@, i0 + 1));
            }
            i = i + 1;
        } else {
            let mut j = i + 1;
            proof {
                assert(token_end(s@, i0) == token_end(s@, i0 + 1));
            }
            while j < n && !is_space_char(s.get_char(j))
                invariant
                    n == s@.len(),
                    0 <= i0 < j <= n,
                    token_end(s@, i0) == token_end(s@, j as int),
                decreases n - j,
            {
                proof {
                    assert(token_end(s@, j as int) == token_end(s@, j + 1 as int));
                }
                j = j + 1;
            }
            proof {
                assert(token_end(s@, j as int) == j as int);
                assert(tokens_from(s@, i0) == seq![s@.subrange(i0, j as int)] + tokens_from(
                    s@,
                    j as int,
                ));
            }
            let tok = s.substring_char(i, j);
            let ghost before = toks@.map_values(|t: String| t@);
            toks.push(tok.to_owned());
            proof {
                assert(toks@.map_values(|t: String| t@) =~= before.push(s@.subrange(i0, j as int)));
                assert(before + (seq![s@.subrange(i0, j as int)] + tokens_from(s@, j as int))
                    =~= toks@.map_values(|t: String| t@) + tokens_from(s@, j as int));
            }
            i = j;
        }
    }
    proof {
        assert(tokens_from(s@, n as int) =~= Seq::<Seq<char>>::empty());
        assert(toks@.map_values(|t: String| t@) + tokens_from(s@, n as int) =~= toks@.map_values(
            |t: String| t@,
        ));
    }
    toks
}

} // verus!
