//! The static word list.

use vstd::prelude::*;
use vstd::string::*;
use vstd::hash_set::StringHashSet;
use crate::error::{BotError, DictionaryError};
use crate::text::{chars_of, normalize, normalized, string_of, string_views};

verus! {

/// The words a list of lines yields: the canonical form of every line that
/// is not blank.
pub open spec fn words_of_lines(lines: Seq<Seq<char>>) -> Set<Seq<char>> {
    Set::new(
        |w: Seq<char>|
            w.len() > 0 && exists|i: int|
                0 <= i < lines.len() && normalized(#[trigger] lines[i]) == w,
    )
}

/// The lines of a text: the stretches between its line feeds. A text of
/// `n` line feeds has `n + 1` lines, the last of which is empty where the
/// text ends in a line feed.
pub open spec fn lines_of(text: Seq<char>) -> Seq<Seq<char>>
    decreases text.len(),
{
    if text.len() == 0 {
        seq![Seq::empty()]
    } else {
        let earlier = lines_of(text.drop_last());
        if text.last() == '\n' {
            earlier.push(Seq::empty())
        } else {
            earlier.drop_last().push(earlier.last().push(text.last()))
        }
    }
}

/// Splits a text at its line feeds.
pub fn split_lines(text: &str) -> (lines: Vec<String>)
    ensures
        string_views(lines@) == lines_of(text@),
{
    let chars = chars_of(text);
    let n = chars.len();
    let mut lines: Vec<String> = Vec::new();
    let mut start: usize = 0;
    let mut i: usize = 0;
    assert(chars@.take(0) =~= Seq::<char>::empty());
    assert(string_views(lines@).push(chars@.subrange(0, 0)) =~= seq![Seq::<char>::empty()]);
    while i < n
        invariant
            n == chars@.len(),
            start <= i <= n,
            lines_of(chars@.take(i as int)) == string_views(lines@).push(
                chars@.subrange(start as int, i as int),
            ),
        decreases n - i,
    {
        let ghost before = string_views(lines@);
        let ghost current = chars@.subrange(start as int, i as int);
        proof {
            assert(chars@.take(i as int + 1).drop_last() =~= chars@.take(i as int));
            assert(chars@.take(i as int + 1).last() == chars@[i as int]);
            assert(before.push(current).drop_last() =~= before);
        }
        if chars[i] == '\n' {
            let line = string_of(&chars, start, i);
            lines.push(line);
            start = i + 1;
            proof {
                assert(string_views(lines@) =~= before.push(current));
                assert(chars@.subrange(start as int, i as int + 1) =~= Seq::<char>::empty());
            }
        } else {
            proof {
                assert(chars@.subrange(start as int, i as int + 1) =~= current.push(
                    chars@[i as int],
                ));
            }
        }
        i += 1;
    }
    let ghost before = string_views(lines@);
    let last = string_of(&chars, start, n);
    lines.push(last);
    proof {
        assert(chars@.take(n as int) =~= chars@);
        assert(string_views(lines@) =~= before.push(chars@.subrange(start as int, n as int)));
    }
    lines
}

/// A read-only set of known words.
pub struct DictionaryValidator {
    words: StringHashSet,
}

impl View for DictionaryValidator {
    type V = Set<Seq<char>>;

    /// The known words, in canonical form.
    closed spec fn view(&self) -> Set<Seq<char>> {
        self.words@
    }
}

impl DictionaryValidator {
    /// The dictionary holds at least one word and no empty one.
    pub open spec fn wf(&self) -> bool {
        &&& !self@.contains(Seq::<char>::empty())
        &&& exists|w: Seq<char>| self@.contains(w)
    }

    /// Builds the dictionary from a word list: text with one word per line.
    /// Blank lines are skipped; a list without any word is refused.
    pub fn new(word_list: &str) -> (r: Result<Self, BotError>)
        ensures
            match r {
                Ok(dictionary) => {
                    &&& dictionary.wf()
                    &&& dictionary@ == words_of_lines(lines_of(word_list@))
                },
                Err(e) => {
                    &&& e matches BotError::Dictionary(DictionaryError::EmptyDictionary)
                    &&& words_of_lines(lines_of(word_list@)) == Set::<Seq<char>>::empty()
                },
            },
    {
        let lines = split_lines(word_list);
        Self::from_lines(&lines)
    }

    /// Builds the dictionary from the lines of a word list, one word per
    /// line. Blank lines are skipped; a list without any word is refused.
    pub fn from_lines(lines: &Vec<String>) -> (r: Result<Self, BotError>)
        ensures
            match r {
                Ok(dictionary) => {
                    &&& dictionary.wf()
                    &&& dictionary@ == words_of_lines(string_views(lines@))
                },
                Err(e) => {
                    &&& e matches BotError::Dictionary(DictionaryError::EmptyDictionary)
                    &&& words_of_lines(string_views(lines@)) == Set::<Seq<char>>::empty()
                },
            },
    {
        let mut words = StringHashSet::new();
        let ghost all = string_views(lines@);
        let mut i: usize = 0;
        while i < lines.len()
            invariant
                i <= lines.len(),
                all == string_views(lines@),
                words@ == words_of_lines(all.take(i as int)),
            decreases lines.len() - i,
        {
            let word = normalize(lines[i].as_str());
            proof {
                let before = all.take(i as int);
                let after = all.take(i as int + 1);
                assert(after[i as int] == lines@[i as int]@);
                assert forall|w: Seq<char>|
                    words_of_lines(after).contains(w) <==> (words_of_lines(before).contains(w) || (
                    w.len() > 0 && w == word@)) by {
                    if words_of_lines(before).contains(w) {
                        let j = choose|j: int|
                            0 <= j < before.len() && normalized(#[trigger] before[j]) == w;
                        assert(after[j] == before[j]);
                    }
                    if words_of_lines(after).contains(w) {
                        let j = choose|j: int|
                            0 <= j < after.len() && normalized(#[trigger] after[j]) == w;
                        if j < i {
                            assert(before[j] == after[j]);
                        }
                    }
                }
            }
            if !word.as_str().is_empty() {
                words.insert(word);
                assert(words@ =~= words_of_lines(all.take(i as int + 1)));
            } else {
                assert(words@ =~= words_of_lines(all.take(i as int + 1)));
            }
            i += 1;
        }
        assert(all.take(i as int) =~= all);
        if words.is_empty() {
            assert(words@ =~= Set::<Seq<char>>::empty());
            return Err(BotError::Dictionary(DictionaryError::EmptyDictionary));
        }
        proof {
            assert(!words_of_lines(all).contains(Seq::<char>::empty()));
            assert(exists|w: Seq<char>| words@.contains(w)) by {
                if forall|w: Seq<char>| !words@.contains(w) {
                    assert(words@ =~= Set::<Seq<char>>::empty());
                }
            }
        }
        let dictionary = DictionaryValidator { words };
        assert(dictionary@ == words_of_lines(string_views(lines@)));
        assert(dictionary.wf());
        Ok(dictionary)
    }

    /// Whether the canonical form of `word` is a known word.
    pub fn is_valid_word(&self, word: &str) -> (r: bool)
        ensures
            r == self@.contains(normalized(word@)),
    {
        let word = normalize(word);
        self.words.contains(word.as_str())
    }
}

} // verus!
