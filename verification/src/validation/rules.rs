//! The one-edit rule and the set of words already played.

use vstd::prelude::*;
use vstd::string::*;
use vstd::hash_set::StringHashSet;
use vstd::utf8::encode_utf8;
use crate::error::{BotError, ValidationError, ViolationSpan};
use crate::text::{chars_of, normalize, normalized};

verus! {

/// `a` and `b` have the same length and differ in exactly one position.
pub open spec fn differ_in_one_position(a: Seq<char>, b: Seq<char>) -> bool {
    &&& a.len() == b.len()
    &&& exists|k: int|
        0 <= k < a.len() && #[trigger] a[k] != b[k] && forall|j: int|
            0 <= j < a.len() && j != k ==> a[j] == b[j]
}

/// `shorter` is `longer` with exactly one character deleted.
pub open spec fn is_one_deletion(longer: Seq<char>, shorter: Seq<char>) -> bool {
    exists|k: int| 0 <= k < longer.len() && #[trigger] longer.remove(k) == shorter
}

/// `b` is reached from `a` by substituting, inserting or deleting exactly
/// one character.
pub open spec fn one_edit_apart(a: Seq<char>, b: Seq<char>) -> bool {
    ||| differ_in_one_position(a, b)
    ||| is_one_deletion(a, b)
    ||| is_one_deletion(b, a)
}

/// The span reported with a rejected move: the whole candidate when it
/// repeats the previous word, nothing otherwise.
pub open spec fn violation_span(a: Seq<char>, b: Seq<char>) -> Option<ViolationSpan> {
    if a == b {
        Some(ViolationSpan { offset: 0, length: encode_utf8(b).len() as usize })
    } else {
        None
    }
}

proof fn lemma_two_mismatches(a: Seq<char>, b: Seq<char>, p: int, q: int)
    requires
        a.len() == b.len(),
        0 <= p < q < a.len(),
        a[p] != b[p],
        a[q] != b[q],
    ensures
        !differ_in_one_position(a, b),
{
}

proof fn lemma_no_mismatch(a: Seq<char>, b: Seq<char>)
    requires
        a.len() == b.len(),
        forall|j: int| 0 <= j < a.len() ==> a[j] == b[j],
    ensures
        a == b,
        !differ_in_one_position(a, b),
{
    assert(a =~= b);
}

proof fn lemma_length_gap(a: Seq<char>, b: Seq<char>)
    ensures
        a.len() != b.len() ==> !differ_in_one_position(a, b),
        a.len() != b.len() + 1 ==> !is_one_deletion(a, b),
{
    if is_one_deletion(a, b) {
        let k = choose|k: int| 0 <= k < a.len() && #[trigger] a.remove(k) == b;
        assert(a.remove(k).len() == a.len() - 1);
    }
}

/// A skip at `p` in `longer` that lines the two words up is a deletion.
proof fn lemma_skip_is_deletion(longer: Seq<char>, shorter: Seq<char>, p: int)
    requires
        longer.len() == shorter.len() + 1,
        0 <= p <= shorter.len(),
        forall|j: int| 0 <= j < p ==> shorter[j] == longer[j],
        forall|j: int| p <= j < shorter.len() ==> shorter[j] == longer[j + 1],
    ensures
        is_one_deletion(longer, shorter),
{
    assert(longer.remove(p) =~= shorter);
}

/// Two mismatches of the greedy walk rule every deletion out.
proof fn lemma_second_mismatch(longer: Seq<char>, shorter: Seq<char>, p: int, q: int)
    requires
        longer.len() == shorter.len() + 1,
        0 <= p <= q < shorter.len(),
        shorter[p] != longer[p],
        shorter[q] != longer[q + 1],
    ensures
        !is_one_deletion(longer, shorter),
{
    if is_one_deletion(longer, shorter) {
        let k = choose|k: int| 0 <= k < longer.len() && #[trigger] longer.remove(k) == shorter;
        let r = longer.remove(k);
        if p < k {
            assert(r[p] == longer[p]);
        } else {
            assert(r[q] == longer[q + 1]);
        }
    }
}

/// Walks the shorter word along the longer one, skipping one character of
/// the longer word at the first mismatch.
fn is_deletion_of(longer: &Vec<char>, shorter: &Vec<char>) -> (r: bool)
    requires
        longer.len() == shorter.len() + 1,
    ensures
        r == is_one_deletion(longer@, shorter@),
{
    let mut long_idx: usize = 0;
    let mut short_idx: usize = 0;
    let mut found_difference = false;
    let ghost skipped: int = 0;
    while short_idx < shorter.len() && long_idx < longer.len()
        invariant
            longer.len() == shorter.len() + 1,
            short_idx <= shorter.len(),
            long_idx == short_idx + if found_difference { 1int } else { 0int },
            !found_difference ==> forall|j: int| 0 <= j < short_idx ==> shorter@[j] == longer@[j],
            found_difference ==> {
                &&& 0 <= skipped <= short_idx
                &&& skipped < shorter.len()
                &&& shorter@[skipped] != longer@[skipped]
                &&& forall|j: int| 0 <= j < skipped ==> shorter@[j] == longer@[j]
                &&& forall|j: int| skipped <= j < short_idx ==> shorter@[j] == longer@[j + 1]
            },
        decreases shorter.len() - short_idx + longer.len() - long_idx,
    {
        if shorter[short_idx] == longer[long_idx] {
            short_idx += 1;
            long_idx += 1;
        } else {
            if found_difference {
                proof {
                    lemma_second_mismatch(longer@, shorter@, skipped, short_idx as int);
                }
                return false;
            }
            found_difference = true;
            proof {
                skipped = short_idx as int;
            }
            long_idx += 1;
        }
    }
    proof {
        if found_difference {
            lemma_skip_is_deletion(longer@, shorter@, skipped);
        } else {
            lemma_skip_is_deletion(longer@, shorter@, shorter.len() as int);
        }
    }
    true
}

/// Tells whether `word2` is exactly one substitution, insertion or deletion
/// away from `word1`, and which part of `word2` to point at when it is not.
pub fn check_one_letter_difference(word1: &str, word2: &str) -> (r: (bool, Option<ViolationSpan>))
    ensures
        r.0 == one_edit_apart(word1@, word2@),
        r.1 == violation_span(word1@, word2@),
{
    let chars1 = chars_of(word1);
    let chars2 = chars_of(word2);
    let len1 = chars1.len();
    let len2 = chars2.len();
    proof {
        lemma_length_gap(word1@, word2@);
        lemma_length_gap(word2@, word1@);
    }
    if len1 == len2 {
        let mut differences: usize = 0;
        let ghost first: int = 0;
        let mut i: usize = 0;
        while i < len1
            invariant
                chars1@ == word1@,
                chars2@ == word2@,
                !is_one_deletion(word1@, word2@),
                !is_one_deletion(word2@, word1@),
                len1 == chars1.len(),
                len1 == chars2.len(),
                i <= len1,
                differences <= 1,
                differences == 0 ==> forall|j: int| 0 <= j < i ==> chars1@[j] == chars2@[j],
                differences == 1 ==> {
                    &&& 0 <= first < i
                    &&& chars1@[first] != chars2@[first]
                    &&& forall|j: int| 0 <= j < i && j != first ==> chars1@[j] == chars2@[j]
                },
            decreases len1 - i,
        {
            if chars1[i] != chars2[i] {
                if differences == 1 {
                    proof {
                        lemma_two_mismatches(chars1@, chars2@, first, i as int);
                    }
                    return (false, None);
                }
                differences = 1;
                proof {
                    first = i as int;
                }
            }
            i += 1;
        }
        if differences == 1 {
            (true, None)
        } else {
            proof {
                lemma_no_mismatch(chars1@, chars2@);
            }
            (false, Some(ViolationSpan { offset: 0, length: word2.len() }))
        }
    } else if len1 < len2 {
        if len2 - len1 > 1 {
            return (false, None);
        }
        (is_deletion_of(&chars2, &chars1), None)
    } else {
        if len1 - len2 > 1 {
            return (false, None);
        }
        (is_deletion_of(&chars1, &chars2), None)
    }
}

/// The message carried by every rejection under the one-edit rule.
pub open spec fn rule_violation_reason() -> Seq<char> {
    "Word must differ by exactly one letter (added, removed, or changed)"@
}

/// What `validate_move` answers for a candidate, given the words already
/// used.
pub enum MoveVerdict {
    Accepted,
    AlreadyUsed,
    RuleViolation,
}

/// The verdict on `new_word` played after `previous_word` when `used` holds
/// the words played so far. A repeated word is reported as such before the
/// one-edit rule is looked at.
pub open spec fn move_verdict(
    used: Set<Seq<char>>,
    previous_word: Seq<char>,
    new_word: Seq<char>,
) -> MoveVerdict {
    if used.contains(normalized(new_word)) {
        MoveVerdict::AlreadyUsed
    } else if one_edit_apart(normalized(previous_word), normalized(new_word)) {
        MoveVerdict::Accepted
    } else {
        MoveVerdict::RuleViolation
    }
}

/// The used words after `validate_move`: the candidate joins them exactly
/// when it is accepted.
pub open spec fn used_after_move(
    used: Set<Seq<char>>,
    previous_word: Seq<char>,
    new_word: Seq<char>,
) -> Set<Seq<char>> {
    if move_verdict(used, previous_word, new_word) is Accepted {
        used.insert(normalized(new_word))
    } else {
        used
    }
}

/// Validates that a word follows the game rules in relation to the word
/// before it, and remembers the words already played.
pub struct RulesValidator {
    used_words: StringHashSet,
}

impl View for RulesValidator {
    type V = Set<Seq<char>>;

    /// The words played so far, in canonical form.
    closed spec fn view(&self) -> Set<Seq<char>> {
        self.used_words@
    }
}

impl Default for RulesValidator {
    fn default() -> (r: Self)
        ensures
            r@ == Set::<Seq<char>>::empty(),
            r.wf(),
    {
        RulesValidator { used_words: StringHashSet::new() }
    }
}

impl RulesValidator {
    /// The used words form a finite set.
    pub open spec fn wf(&self) -> bool {
        self@.finite()
    }

    /// Checks `new_word` against the word before it: it must not have been
    /// played already and must be one substitution, insertion or deletion
    /// away from `previous_word`. An accepted word joins the used words.
    pub fn validate_move(&mut self, previous_word: &str, new_word: &str) -> (r: Result<
        (),
        BotError,
    >)
        requires
            old(self).wf(),
        ensures
            final(self).wf(),
            final(self)@ == used_after_move(old(self)@, previous_word@, new_word@),
            match move_verdict(old(self)@, previous_word@, new_word@) {
                MoveVerdict::Accepted => r is Ok,
                MoveVerdict::AlreadyUsed => {
                    &&& r matches Err(BotError::Validation(ValidationError::AlreadyUsed(w)))
                    &&& w@ == normalized(new_word@)
                },
                MoveVerdict::RuleViolation => {
                    &&& r matches Err(
                        BotError::Validation(ValidationError::RuleViolation { word, span, reason }),
                    )
                    &&& word@ == normalized(new_word@)
                    &&& span == violation_span(normalized(previous_word@), normalized(new_word@))
                    &&& reason@ == rule_violation_reason()
                },
            },
    {
        let previous = normalize(previous_word);
        let new = normalize(new_word);
        if self.used_words.contains(new.as_str()) {
            return Err(BotError::Validation(ValidationError::AlreadyUsed(new)));
        }
        let (is_valid, violation_span) = check_one_letter_difference(
            previous.as_str(),
            new.as_str(),
        );
        if !is_valid {
            return Err(
                BotError::Validation(
                    ValidationError::RuleViolation {
                        word: new,
                        span: violation_span,
                        reason: String::from_str(
                            "Word must differ by exactly one letter (added, removed, or changed)",
                        ),
                    },
                ),
            );
        }
        self.used_words.insert(new);
        Ok(())
    }

    /// `validate_move` reduced to a yes or no.
    pub fn is_valid_move(&mut self, previous_word: &str, new_word: &str) -> (r: bool)
        requires
            old(self).wf(),
        ensures
            final(self).wf(),
            r == (move_verdict(old(self)@, previous_word@, new_word@) is Accepted),
            final(self)@ == used_after_move(old(self)@, previous_word@, new_word@),
    {
        self.validate_move(previous_word, new_word).is_ok()
    }

    /// Records a word as used without checking it against any other.
    pub fn add_word(&mut self, word: &str)
        requires
            old(self).wf(),
        ensures
            final(self).wf(),
            final(self)@ == old(self)@.insert(normalized(word@)),
    {
        let word = normalize(word);
        self.used_words.insert(word);
    }

    /// The number of distinct words used so far.
    pub fn word_count(&self) -> (r: usize)
        ensures
            r == self@.len(),
    {
        self.used_words.len()
    }

    /// Forgets every used word.
    pub fn reset(&mut self)
        ensures
            final(self).wf(),
            final(self)@ == Set::<Seq<char>>::empty(),
    {
        self.used_words.clear();
    }
}

/// The number of positions in which two words of the same length differ.
pub open spec fn mismatch_count(a: Seq<char>, b: Seq<char>) -> nat
    decreases a.len(),
{
    if a.len() == 0 || b.len() == 0 {
        0
    } else {
        mismatch_count(a.drop_last(), b.drop_last()) + if a.last() != b.last() {
            1nat
        } else {
            0nat
        }
    }
}

/// Words of the same length are equal exactly when they differ in no
/// position.
pub proof fn lemma_no_mismatch_is_equality(a: Seq<char>, b: Seq<char>)
    requires
        a.len() == b.len(),
    ensures
        mismatch_count(a, b) == 0 <==> a == b,
    decreases a.len(),
{
    if a.len() > 0 {
        lemma_no_mismatch_is_equality(a.drop_last(), b.drop_last());
        if a.drop_last() == b.drop_last() && a.last() == b.last() {
            assert(a =~= a.drop_last().push(a.last()));
            assert(b =~= b.drop_last().push(b.last()));
        }
    } else {
        assert(a =~= b);
    }
}

/// Words of the same length differ in exactly one position exactly when
/// the count of their mismatched positions is one.
pub proof fn lemma_one_mismatch_is_count_one(a: Seq<char>, b: Seq<char>)
    requires
        a.len() == b.len(),
    ensures
        differ_in_one_position(a, b) <==> mismatch_count(a, b) == 1,
    decreases a.len(),
{
    if a.len() > 0 {
        let n = a.len() as int;
        let a0 = a.drop_last();
        let b0 = b.drop_last();
        lemma_one_mismatch_is_count_one(a0, b0);
        lemma_no_mismatch_is_equality(a0, b0);
        if a.last() != b.last() {
            if differ_in_one_position(a, b) {
                let k = choose|k: int|
                    0 <= k < a.len() && #[trigger] a[k] != b[k] && forall|j: int|
                        0 <= j < a.len() && j != k ==> a[j] == b[j];
                assert(k == n - 1);
                assert(a0 =~= b0);
            }
            if a0 == b0 {
                assert(a[n - 1] != b[n - 1]);
                assert forall|j: int| 0 <= j < a.len() && j != n - 1 implies a[j] == b[j] by {
                    assert(a0[j] == b0[j]);
                }
                assert(differ_in_one_position(a, b));
            }
        } else {
            if differ_in_one_position(a, b) {
                let k = choose|k: int|
                    0 <= k < a.len() && #[trigger] a[k] != b[k] && forall|j: int|
                        0 <= j < a.len() && j != k ==> a[j] == b[j];
                assert(k < n - 1);
                assert(a0[k] != b0[k]);
                assert forall|j: int| 0 <= j < a0.len() && j != k implies a0[j] == b0[j] by {
                    assert(a[j] == b[j]);
                }
                assert(differ_in_one_position(a0, b0));
            }
            if differ_in_one_position(a0, b0) {
                let k = choose|k: int|
                    0 <= k < a0.len() && #[trigger] a0[k] != b0[k] && forall|j: int|
                        0 <= j < a0.len() && j != k ==> a0[j] == b0[j];
                assert(a[k] != b[k]);
                assert forall|j: int| 0 <= j < a.len() && j != k implies a[j] == b[j] by {
                    if j < n - 1 {
                        assert(a0[j] == b0[j]);
                    }
                }
                assert(differ_in_one_position(a, b));
            }
        }
    }
}

/// Between words of the same length, one edit is one substitution: the
/// words are one edit apart exactly when they differ in one position.
pub proof fn lemma_equal_length_edit(a: Seq<char>, b: Seq<char>)
    requires
        a.len() == b.len(),
    ensures
        one_edit_apart(a, b) <==> differ_in_one_position(a, b),
{
    lemma_length_gap(a, b);
    lemma_length_gap(b, a);
}

/// Between words whose lengths differ by one, one edit is one deletion:
/// the words are one edit apart exactly when the shorter is the longer
/// with one character deleted.
pub proof fn lemma_unequal_length_edit(longer: Seq<char>, shorter: Seq<char>)
    requires
        longer.len() == shorter.len() + 1,
    ensures
        one_edit_apart(longer, shorter) <==> is_one_deletion(longer, shorter),
        one_edit_apart(shorter, longer) <==> is_one_deletion(longer, shorter),
{
    lemma_length_gap(longer, shorter);
    lemma_length_gap(shorter, longer);
}

/// No word is one edit apart from itself.
pub proof fn lemma_same_word_is_no_edit(a: Seq<char>)
    ensures
        !one_edit_apart(a, a),
{
    lemma_length_gap(a, a);
}

/// Words whose lengths differ by more than one are not one edit apart.
pub proof fn lemma_distant_lengths_are_no_edit(a: Seq<char>, b: Seq<char>)
    requires
        a.len() > b.len() + 1 || b.len() > a.len() + 1,
    ensures
        !one_edit_apart(a, b),
{
    lemma_length_gap(a, b);
    lemma_length_gap(b, a);
}

/// A move between words that have the same length in canonical form, to a
/// word that was not used before, is accepted exactly when the canonical
/// forms differ in one position: when the count of their mismatched
/// positions is one.
pub proof fn lemma_equal_length_move(
    used: Set<Seq<char>>,
    previous_word: Seq<char>,
    new_word: Seq<char>,
)
    requires
        normalized(previous_word).len() == normalized(new_word).len(),
        !used.contains(normalized(new_word)),
    ensures
        move_verdict(used, previous_word, new_word) is Accepted <==> differ_in_one_position(
            normalized(previous_word),
            normalized(new_word),
        ),
        move_verdict(used, previous_word, new_word) is Accepted <==> mismatch_count(
            normalized(previous_word),
            normalized(new_word),
        ) == 1,
{
    lemma_equal_length_edit(normalized(previous_word), normalized(new_word));
    lemma_one_mismatch_is_count_one(normalized(previous_word), normalized(new_word));
}

/// A move between words whose canonical forms differ in length by one, to
/// a word that was not used before, is accepted exactly when the shorter
/// form is the longer one with one character deleted.
pub proof fn lemma_unequal_length_move(
    used: Set<Seq<char>>,
    previous_word: Seq<char>,
    new_word: Seq<char>,
)
    requires
        !used.contains(normalized(new_word)),
        normalized(previous_word).len() == normalized(new_word).len() + 1 || normalized(
            new_word,
        ).len() == normalized(previous_word).len() + 1,
    ensures
        normalized(previous_word).len() > normalized(new_word).len() ==> (move_verdict(
            used,
            previous_word,
            new_word,
        ) is Accepted <==> is_one_deletion(normalized(previous_word), normalized(new_word))),
        normalized(previous_word).len() < normalized(new_word).len() ==> (move_verdict(
            used,
            previous_word,
            new_word,
        ) is Accepted <==> is_one_deletion(normalized(new_word), normalized(previous_word))),
{
    if normalized(previous_word).len() > normalized(new_word).len() {
        lemma_unequal_length_edit(normalized(previous_word), normalized(new_word));
    } else {
        lemma_unequal_length_edit(normalized(new_word), normalized(previous_word));
    }
}

/// A move from a word to itself is never accepted, whatever was used
/// before.
pub proof fn lemma_same_word_rejected(used: Set<Seq<char>>, word: Seq<char>)
    ensures
        !(move_verdict(used, word, word) is Accepted),
        used_after_move(used, word, word) == used,
{
    lemma_same_word_is_no_edit(normalized(word));
}

/// A move between words whose canonical forms differ in length by more
/// than one is never accepted.
pub proof fn lemma_distant_lengths_rejected(
    used: Set<Seq<char>>,
    previous_word: Seq<char>,
    new_word: Seq<char>,
)
    requires
        normalized(previous_word).len() > normalized(new_word).len() + 1 || normalized(
            new_word,
        ).len() > normalized(previous_word).len() + 1,
    ensures
        !(move_verdict(used, previous_word, new_word) is Accepted),
        used_after_move(used, previous_word, new_word) == used,
{
    lemma_distant_lengths_are_no_edit(normalized(previous_word), normalized(new_word));
}

/// Checking a move never takes a word out of the used words.
pub proof fn lemma_used_words_grow(
    used: Set<Seq<char>>,
    previous_word: Seq<char>,
    new_word: Seq<char>,
)
    ensures
        used.subset_of(used_after_move(used, previous_word, new_word)),
{
}

/// A word that was accepted once is never accepted again: as long as the
/// used words have only grown since, every move to a word with the same
/// canonical form is turned down as already used.
pub proof fn lemma_accepted_word_stays_used(
    used: Set<Seq<char>>,
    previous_word: Seq<char>,
    new_word: Seq<char>,
    later: Set<Seq<char>>,
    later_previous_word: Seq<char>,
    same_word: Seq<char>,
)
    requires
        move_verdict(used, previous_word, new_word) is Accepted,
        used_after_move(used, previous_word, new_word).subset_of(later),
        normalized(same_word) == normalized(new_word),
    ensures
        move_verdict(later, later_previous_word, same_word) is AlreadyUsed,
{
    assert(used_after_move(used, previous_word, new_word).contains(normalized(new_word)));
}

/// A word that was added to the used words is never accepted: as long as
/// the used words have only grown since, every move to a word with the
/// same canonical form is turned down as already used.
pub proof fn lemma_added_word_stays_used(
    used: Set<Seq<char>>,
    word: Seq<char>,
    later: Set<Seq<char>>,
    later_previous_word: Seq<char>,
    same_word: Seq<char>,
)
    requires
        used.insert(normalized(word)).subset_of(later),
        normalized(same_word) == normalized(word),
    ensures
        move_verdict(later, later_previous_word, same_word) is AlreadyUsed,
{
    assert(used.insert(normalized(word)).contains(normalized(word)));
}

} // verus!
