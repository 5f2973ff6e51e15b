//! Word normalisation and the character classes the game rules rely on.

use vstd::prelude::*;
use vstd::string::*;

verus! {

/// The characters of a string slice once leading and trailing whitespace is
/// removed, as `str::trim` returns them.
pub uninterp spec fn trimmed(s: Seq<char>) -> Seq<char>;

/// The Unicode lowercase equivalent of a string, as `str::to_lowercase`
/// returns it.
pub uninterp spec fn lowercased(s: Seq<char>) -> Seq<char>;

/// `str::trim` returns the slice without its leading and trailing
/// whitespace; the result depends on the characters of the input alone.
pub assume_specification[ str::trim ](s: &str) -> (r: &str)
    ensures
        r@ == trimmed(s@),
;

/// `str::to_lowercase` returns the lowercase equivalent of the slice as a
/// new string; the result depends on the characters of the input alone.
pub assume_specification[ str::to_lowercase ](s: &str) -> (r: String)
    ensures
        r@ == lowercased(s@),
;

/// The canonical form under which words are compared: trimmed, then
/// lowercased.
pub open spec fn normalized(s: Seq<char>) -> Seq<char> {
    lowercased(trimmed(s))
}

/// Brings a word into its canonical form.
pub fn normalize(word: &str) -> (r: String)
    ensures
        r@ == normalized(word@),
{
    word.trim().to_lowercase()
}

/// The characters of each string of a list.
pub open spec fn string_views(strings: Seq<String>) -> Seq<Seq<char>> {
    strings.map_values(|s: String| s@)
}

/// Copies the characters of a string into a vector.
pub fn chars_of(s: &str) -> (v: Vec<char>)
    ensures
        v@ == s@,
{
    let mut v: Vec<char> = Vec::new();
    for c in it: s.chars()
        invariant
            it.seq() == s@,
            v@ == it.seq().take(it.index()),
    {
        v.push(c);
    }
    v
}

/// `String::from_iter` over characters builds the string that holds
/// exactly these characters, in their order.
#[verifier::external_body]
pub(crate) fn string_of(chars: &Vec<char>, from: usize, to: usize) -> (r: String)
    requires
        from <= to <= chars.len(),
    ensures
        r@ == chars@.subrange(from as int, to as int),
{
    chars[from..to].iter().collect()
}

/// Whether a character has the Unicode property `Alphabetic`, as
/// `char::is_alphabetic` tells it.
pub uninterp spec fn alphabetic(c: char) -> bool;

/// The uppercase mapping of a character, which may be several characters
/// long, as `char::to_uppercase` yields it.
pub uninterp spec fn uppercased(c: char) -> Seq<char>;

/// `char::is_alphabetic` tells whether the character has the Unicode
/// property `Alphabetic`; the answer depends on the character alone.
pub assume_specification[ char::is_alphabetic ](c: char) -> (r: bool)
    ensures
        r == alphabetic(c),
;

/// `char::is_ascii_digit` holds exactly of the ten characters `0` to `9`.
pub assume_specification[ char::is_ascii_digit ](c: &char) -> (r: bool)
    ensures
        r == is_decimal_digit(*c),
;

/// `char::to_uppercase` yields the characters of the uppercase mapping of
/// `c`; collected into a string they depend on `c` alone.
#[verifier::external_body]
fn uppercase_of(c: char) -> (r: String)
    ensures
        r@ == uppercased(c),
{
    c.to_uppercase().to_string()
}

/// One of the characters `0` to `9`.
pub open spec fn is_decimal_digit(c: char) -> bool {
    '0' <= c <= '9'
}

/// A character a playable word may hold: alphabetic and no ASCII digit.
pub open spec fn is_letter(c: char) -> bool {
    alphabetic(c) && !is_decimal_digit(c)
}

/// A word the game takes up: not empty and made of letters only.
pub open spec fn is_playable(word: Seq<char>) -> bool {
    word.len() > 0 && forall|i: int| 0 <= i < word.len() ==> is_letter(#[trigger] word[i])
}

/// Tells whether a word is not empty and holds letters only.
pub fn check_playable(word: &str) -> (r: bool)
    ensures
        r == is_playable(word@),
{
    if word.is_empty() {
        return false;
    }
    for c in it: word.chars()
        invariant
            it.seq() == word@,
            forall|i: int| 0 <= i < it.index() ==> is_letter(#[trigger] word@[i]),
    {
        if !c.is_alphabetic() || c.is_ascii_digit() {
            assert(!is_letter(word@[it.index()]));
            return false;
        }
    }
    true
}

/// A word with its first character replaced by its uppercase mapping.
pub open spec fn capitalized(word: Seq<char>) -> Seq<char> {
    if word.len() == 0 {
        word
    } else {
        uppercased(word[0]) + word.subrange(1, word.len() as int)
    }
}

/// Puts the first character of a word in upper case.
pub fn capitalize(word: &str) -> (r: String)
    ensures
        r@ == capitalized(word@),
{
    let n = word.unicode_len();
    if n == 0 {
        return String::from_str(word);
    }
    let first = word.get_char(0);
    let rest = word.substring_char(1, n);
    uppercase_of(first).concat(rest)
}

} // verus!
