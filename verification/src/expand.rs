//! Word expansion. In this core every span is a literal, so a word expands to
//! exactly one field: the concatenation of its spans' texts.

use vstd::prelude::*;

use crate::ast::{span_text, spans_text, word_text, Span, Word};
use crate::shell::Shell;

verus! {

/// Whether two string slices hold the same text.
pub fn str_eq(a: &str, b: &str) -> (r: bool)
    ensures
        r == (a@ == b@),
{
    let sa = a.to_owned();
    let sb = b.to_owned();
    sa == sb
}

/// Expands one word into fields. Field splitting on `ifs` would apply only to
/// expanded fragments, and every span of this core is a literal, so the
/// result is always the single concatenation of the span texts.
pub fn expand_word_into_vec(_shell: &Shell, word: &Word, _ifs: &str) -> (r: Vec<String>)
    ensures
        r@.len() == 1,
        r@[0]@ == word_text(*word),
{
    let mut current_word = String::new();
    let n = word.spans.len();
    let mut i: usize = 0;
    while i < n
        invariant
            i <= n,
            n == word.spans@.len(),
            current_word@ == spans_text(word.spans@.subrange(0, i as int)),
        decreases n - i,
    {
        match &word.spans[i] {
            Span::Literal(s) => {
                current_word.append(s.as_str());
            },
        }
        proof {
            let sub = word.spans@.subrange(0, i + 1);
            assert(sub.drop_last() =~= word.spans@.subrange(0, i as int));
            assert(sub.last() == word.spans@[i as int]);
        }
        i = i + 1;
    }
    proof {
        assert(word.spans@.subrange(0, n as int) =~= word.spans@);
    }
    let mut words: Vec<String> = Vec::new();
    words.push(current_word);
    words
}

/// Expands a simple command's words into its argv, one field per word.
pub fn expand_words(shell: &Shell, words: &Vec<Word>) -> (r: Vec<String>)
    ensures
        r@.len() == words@.len(),
        forall|i: int| 0 <= i < words@.len() ==> r@[i]@ == word_text(words@[i]),
{
    let ifs = shell.ifs();
    let mut evaluated: Vec<String> = Vec::new();
    let n = words.len();
    let mut i: usize = 0;
    while i < n
        invariant
            i <= n,
            n == words@.len(),
            evaluated@.len() == i,
            forall|j: int| 0 <= j < i ==> evaluated@[j]@ == word_text(words@[j]),
        decreases n - i,
    {
        let mut ws = expand_word_into_vec(shell, &words[i], ifs.as_str());
        evaluated.append(&mut ws);
        i = i + 1;
    }
    evaluated
}

} // verus!
