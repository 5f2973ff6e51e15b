//! The game state: a short history of submitted words, the words already
//! used, and the two words later moves are measured against.

use std::collections::VecDeque;
use vstd::prelude::*;
use vstd::string::*;
use crate::validation::rules::{move_verdict, RulesValidator};
use crate::text::normalized;

verus! {

/// The maximum number of previous words to store.
pub const MAX_HISTORY: usize = 2;

/// Where a submitted word stands. A word starts out pending and is decided
/// at most once.
#[derive(Debug, Clone, Copy, PartialEq, Eq, Structural)]
pub enum Validity {
    Pending,
    Valid,
    Invalid,
}

/// A submitted word with its submitter, its message and its standing.
#[derive(Debug, Clone)]
pub struct WordEntry {
    pub word: String,
    pub user_id: u64,
    pub message_id: u64,
    pub validity: Validity,
}

/// A `WordEntry` as plain values.
pub ghost struct WordEntryView {
    pub word: Seq<char>,
    pub user_id: u64,
    pub message_id: u64,
    pub validity: Validity,
}

impl View for WordEntry {
    type V = WordEntryView;

    open spec fn view(&self) -> WordEntryView {
        WordEntryView {
            word: self.word@,
            user_id: self.user_id,
            message_id: self.message_id,
            validity: self.validity,
        }
    }
}

/// Message to register a new word.
pub struct RegisterWord {
    pub word: String,
    pub user_id: u64,
    pub message_id: u64,
}

/// Message to check if a word is valid according to game rules.
pub struct ValidateGameRules {
    pub word: String,
}

/// Message to get the last valid word.
pub struct GetLastValidWord;

/// Message to mark a word as valid or invalid.
#[derive(Debug, Clone, Copy, PartialEq, Eq, Structural)]
pub struct MarkWordValidity {
    pub message_id: u64,
    pub is_valid: bool,
}

/// Message to reset the game state.
pub struct ResetGame;

/// The game state as plain values.
pub ghost struct GameStateView {
    /// The submitted words still remembered, oldest first.
    pub history: Seq<WordEntryView>,
    /// The words already used, in canonical form.
    pub used_words: Set<Seq<char>>,
    /// The most recent word confirmed valid.
    pub last_valid_word: Option<Seq<char>>,
    /// The most recent word that passed the one-edit rule.
    pub last_game_rule_word: Option<Seq<char>>,
}

/// The state of a game that has not started.
pub open spec fn initial_state() -> GameStateView {
    GameStateView {
        history: Seq::empty(),
        used_words: Set::empty(),
        last_valid_word: None,
        last_game_rule_word: None,
    }
}

/// The history once `entry` is appended: the oldest entry leaves when the
/// history would otherwise exceed `MAX_HISTORY`.
pub open spec fn history_after_push(history: Seq<WordEntryView>, entry: WordEntryView) -> Seq<
    WordEntryView,
> {
    let pushed = history.push(entry);
    if pushed.len() > MAX_HISTORY {
        pushed.drop_first()
    } else {
        pushed
    }
}

/// The state after a word is registered: a pending entry joins the history.
pub open spec fn state_after_register(
    s: GameStateView,
    word: Seq<char>,
    user_id: u64,
    message_id: u64,
) -> GameStateView {
    GameStateView {
        history: history_after_push(
            s.history,
            WordEntryView { word, user_id, message_id, validity: Validity::Pending },
        ),
        ..s
    }
}

/// The word a new move is measured against: the last rule-accepted word,
/// else the last valid word, else none.
pub open spec fn reference_word(s: GameStateView) -> Option<Seq<char>> {
    if s.last_game_rule_word is Some {
        s.last_game_rule_word
    } else {
        s.last_valid_word
    }
}

/// Whether `word` is accepted as the next move: always when there is no
/// reference word, else when it is unused and one edit away from it.
pub open spec fn rules_accept(s: GameStateView, word: Seq<char>) -> bool {
    match reference_word(s) {
        None => true,
        Some(previous) => move_verdict(s.used_words, previous, word) is Accepted,
    }
}

/// The state after the rule check of `word`: an accepted word becomes the
/// last rule-accepted word and joins the used words.
pub open spec fn state_after_rule_check(s: GameStateView, word: Seq<char>) -> GameStateView {
    if rules_accept(s, word) {
        GameStateView {
            used_words: s.used_words.insert(normalized(word)),
            last_game_rule_word: Some(word),
            ..s
        }
    } else {
        s
    }
}

/// `i` is the oldest entry of `history` that belongs to `message_id`.
pub open spec fn is_first_match(history: Seq<WordEntryView>, message_id: u64, i: int) -> bool {
    &&& 0 <= i < history.len()
    &&& history[i].message_id == message_id
    &&& forall|j: int| 0 <= j < i ==> history[j].message_id != message_id
}

/// Some entry of `history` belongs to `message_id`.
pub open spec fn has_message(history: Seq<WordEntryView>, message_id: u64) -> bool {
    exists|i: int| 0 <= i < history.len() && #[trigger] history[i].message_id == message_id
}

/// The validity of an entry once it is marked: a pending entry becomes
/// valid or invalid as told, any other entry keeps its validity.
pub open spec fn decided(validity: Validity, is_valid: bool) -> Validity {
    match validity {
        Validity::Pending => if is_valid {
            Validity::Valid
        } else {
            Validity::Invalid
        },
        _ => validity,
    }
}

/// The state after entry `i` of the history receives a verdict. The entry's
/// word becomes the last valid word when the verdict is positive and the
/// entry does not already stand as invalid.
pub open spec fn state_after_mark(s: GameStateView, i: int, is_valid: bool) -> GameStateView {
    let entry = s.history[i];
    GameStateView {
        history: s.history.update(
            i,
            WordEntryView { validity: decided(entry.validity, is_valid), ..entry },
        ),
        last_valid_word: if is_valid && entry.validity != Validity::Invalid {
            Some(entry.word)
        } else {
            s.last_valid_word
        },
        ..s
    }
}

/// Maintains the state of one game.
pub struct GameStateActor {
    /// History of words in the game.
    word_history: VecDeque<WordEntry>,
    /// Rules validator.
    rules_validator: RulesValidator,
    /// The last valid word in the game.
    last_valid_word: Option<String>,
    /// The last word that follows game rules; it may still await
    /// confirmation.
    last_game_rule_word: Option<String>,
}

/// The characters of an optional string.
pub open spec fn option_chars(s: Option<String>) -> Option<Seq<char>> {
    match s {
        Some(w) => Some(w@),
        None => None,
    }
}

impl View for GameStateActor {
    type V = GameStateView;

    closed spec fn view(&self) -> GameStateView {
        GameStateView {
            history: self.word_history@.map_values(|e: WordEntry| e@),
            used_words: self.rules_validator@,
            last_valid_word: option_chars(self.last_valid_word),
            last_game_rule_word: option_chars(self.last_game_rule_word),
        }
    }
}

fn clone_word(word: &Option<String>) -> (r: Option<String>)
    ensures
        option_chars(r) == option_chars(*word),
{
    match word {
        Some(w) => Some(w.clone()),
        None => None,
    }
}

impl Default for GameStateActor {
    fn default() -> (r: Self)
        ensures
            r.wf(),
            r@ == initial_state(),
    {
        Self::new()
    }
}

impl GameStateActor {
    /// The history holds at most `MAX_HISTORY` entries and the used words
    /// are finitely many.
    pub closed spec fn wf(&self) -> bool {
        &&& self.word_history@.len() <= MAX_HISTORY
        &&& self.rules_validator.wf()
    }

    /// A well-formed state never remembers more than `MAX_HISTORY` words.
    pub proof fn lemma_history_bounded(&self)
        requires
            self.wf(),
        ensures
            self@.history.len() <= MAX_HISTORY,
            self@.used_words.finite(),
    {
    }

    /// A game that has not started.
    pub fn new() -> (r: Self)
        ensures
            r.wf(),
            r@ == initial_state(),
    {
        let r = GameStateActor {
            word_history: VecDeque::with_capacity(MAX_HISTORY),
            rules_validator: RulesValidator::default(),
            last_valid_word: None,
            last_game_rule_word: None,
        };
        assert(r@.history =~= Seq::empty());
        r
    }

    /// Adds a word to the history and keeps the history within its bound.
    fn add_to_history(&mut self, entry: WordEntry)
        requires
            old(self).wf(),
        ensures
            final(self).wf(),
            final(self)@ == (GameStateView {
                history: history_after_push(old(self)@.history, entry@),
                ..old(self)@
            }),
    {
        self.word_history.push_back(entry);
        if self.word_history.len() > MAX_HISTORY {
            self.word_history.pop_front();
        }
        assert(final(self)@.history =~= history_after_push(old(self)@.history, entry@));
    }

    /// Registers a submitted word as a pending entry of the history and
    /// acknowledges it.
    pub fn register_word(&mut self, msg: RegisterWord) -> (ack: bool)
        requires
            old(self).wf(),
        ensures
            ack,
            final(self).wf(),
            final(self)@ == state_after_register(
                old(self)@,
                msg.word@,
                msg.user_id,
                msg.message_id,
            ),
    {
        let entry = WordEntry {
            word: msg.word,
            user_id: msg.user_id,
            message_id: msg.message_id,
            validity: Validity::Pending,
        };
        self.add_to_history(entry);
        true
    }

    /// Checks a word against the game rules. The first word of a game is
    /// accepted as it is; a later one must be unused and one edit away from
    /// the reference word. An accepted word becomes the reference for the
    /// next move.
    pub fn validate_game_rules(&mut self, msg: ValidateGameRules) -> (accepted: bool)
        requires
            old(self).wf(),
        ensures
            final(self).wf(),
            accepted == rules_accept(old(self)@, msg.word@),
            final(self)@ == state_after_rule_check(old(self)@, msg.word@),
    {
        let reference = if self.last_game_rule_word.is_some() {
            clone_word(&self.last_game_rule_word)
        } else {
            clone_word(&self.last_valid_word)
        };
        match reference {
            Some(last_word) => {
                let is_valid = self.rules_validator.is_valid_move(
                    last_word.as_str(),
                    msg.word.as_str(),
                );
                if is_valid {
                    self.rules_validator.add_word(msg.word.as_str());
                    self.last_game_rule_word = Some(msg.word);
                    assert(final(self)@.used_words =~= old(self)@.used_words.insert(
                        normalized(msg.word@),
                    ));
                }
                is_valid
            },
            None => {
                self.rules_validator.add_word(msg.word.as_str());
                self.last_game_rule_word = Some(msg.word);
                true
            },
        }
    }

    /// The most recent word confirmed valid, if any.
    pub fn get_last_valid_word(&self, msg: GetLastValidWord) -> (r: Option<String>)
        ensures
            option_chars(r) == self@.last_valid_word,
    {
        clone_word(&self.last_valid_word)
    }

    /// Gives the oldest entry of the history that belongs to `msg.message_id`
    /// its verdict. A pending entry takes the verdict; an entry that was
    /// decided before keeps its standing. On a positive verdict the entry's
    /// word becomes the last valid word, unless the entry stands as invalid.
    /// Nothing changes when no entry belongs to the message.
    pub fn mark_word_validity(&mut self, msg: MarkWordValidity)
        requires
            old(self).wf(),
        ensures
            final(self).wf(),
            !has_message(old(self)@.history, msg.message_id) ==> final(self)@ == old(self)@,
            forall|i: int|
                is_first_match(old(self)@.history, msg.message_id, i) ==> final(self)@
                    == state_after_mark(old(self)@, i, msg.is_valid),
    {
        let n = self.word_history.len();
        let mut i: usize = 0;
        while i < n && self.word_history[i].message_id != msg.message_id
            invariant
                *self == *old(self),
                n == self.word_history@.len(),
                i <= n,
                forall|j: int| 0 <= j < i ==> self.word_history@[j].message_id != msg.message_id,
            decreases n - i,
        {
            i += 1;
        }
        if i < n {
            let found = self.word_history.remove(i);
            if let Some(entry) = found {
                let was_invalid = entry.validity == Validity::Invalid;
                let validity = match entry.validity {
                    Validity::Pending => if msg.is_valid {
                        Validity::Valid
                    } else {
                        Validity::Invalid
                    },
                    Validity::Valid => Validity::Valid,
                    Validity::Invalid => Validity::Invalid,
                };
                if msg.is_valid && !was_invalid {
                    self.last_valid_word = Some(entry.word.clone());
                }
                let updated = WordEntry {
                    word: entry.word,
                    user_id: entry.user_id,
                    message_id: entry.message_id,
                    validity,
                };
                self.word_history.insert(i, updated);
            }
            proof {
                let k = i as int;
                assert(is_first_match(old(self)@.history, msg.message_id, k));
                assert(final(self)@.history =~= state_after_mark(
                    old(self)@,
                    k,
                    msg.is_valid,
                ).history);
                assert forall|j: int|
                    is_first_match(old(self)@.history, msg.message_id, j) implies j == k by {
                    if j < k {
                        assert(old(self)@.history[j].message_id != msg.message_id);
                    }
                }
            }
        } else {
            assert(!has_message(old(self)@.history, msg.message_id));
        }
    }

    /// The most recent word that passed the rule check, if any.
    pub fn get_last_game_rule_word(&self) -> (r: Option<String>)
        ensures
            option_chars(r) == self@.last_game_rule_word,
    {
        clone_word(&self.last_game_rule_word)
    }

    /// The submitted words still remembered, oldest first.
    pub fn history(&self) -> (r: Vec<WordEntry>)
        ensures
            r@.map_values(|e: WordEntry| e@) == self@.history,
    {
        let mut entries: Vec<WordEntry> = Vec::new();
        let mut i: usize = 0;
        while i < self.word_history.len()
            invariant
                i <= self.word_history@.len(),
                entries@.len() == i,
                forall|j: int| 0 <= j < i ==> entries@[j]@ == self.word_history@[j]@,
            decreases self.word_history.len() - i,
        {
            let entry = &self.word_history[i];
            entries.push(
                WordEntry {
                    word: entry.word.clone(),
                    user_id: entry.user_id,
                    message_id: entry.message_id,
                    validity: entry.validity,
                },
            );
            i += 1;
        }
        assert(entries@.map_values(|e: WordEntry| e@) =~= self@.history);
        entries
    }

    /// Forgets the history, the used words and both reference words.
    pub fn reset_game(&mut self, msg: ResetGame)
        ensures
            final(self).wf(),
            final(self)@ == initial_state(),
    {
        self.word_history.clear();
        self.rules_validator.reset();
        self.last_valid_word = None;
        self.last_game_rule_word = None;
        assert(final(self)@.history =~= Seq::empty());
    }
}

/// Appending to a history within its bound gives a history within its
/// bound.
pub proof fn lemma_push_keeps_bound(history: Seq<WordEntryView>, entry: WordEntryView)
    requires
        history.len() <= MAX_HISTORY,
    ensures
        history_after_push(history, entry).len() <= MAX_HISTORY,
        history_after_push(history, entry).last() == entry,
{
}

/// After three registrations in a row only the last two are remembered,
/// whatever the history held before.
pub proof fn lemma_three_registrations(
    history: Seq<WordEntryView>,
    first: WordEntryView,
    second: WordEntryView,
    third: WordEntryView,
)
    requires
        history.len() <= MAX_HISTORY,
    ensures
        history_after_push(history_after_push(history_after_push(history, first), second), third)
            == seq![second, third],
{
    let one = history_after_push(history, first);
    let two = history_after_push(one, second);
    let three = history_after_push(two, third);
    assert(three =~= seq![second, third]);
}

/// The validity of an entry never reverses: once an entry is decided, no
/// later mark changes it.
pub proof fn lemma_validity_never_reverses(validity: Validity, first: bool, second: bool)
    ensures
        validity != Validity::Pending ==> decided(validity, first) == validity,
        decided(validity, first) != Validity::Pending,
        decided(decided(validity, first), second) == decided(validity, first),
{
}

/// No step of a game takes a word out of the used words, and none lets the
/// history grow beyond its bound.
pub proof fn lemma_steps_keep_used_words_and_bound(
    s: GameStateView,
    word: Seq<char>,
    user_id: u64,
    message_id: u64,
    i: int,
    is_valid: bool,
)
    requires
        s.history.len() <= MAX_HISTORY,
        0 <= i < s.history.len(),
    ensures
        state_after_register(s, word, user_id, message_id).used_words == s.used_words,
        state_after_register(s, word, user_id, message_id).history.len() <= MAX_HISTORY,
        s.used_words.subset_of(state_after_rule_check(s, word).used_words),
        state_after_rule_check(s, word).history == s.history,
        state_after_mark(s, i, is_valid).used_words == s.used_words,
        state_after_mark(s, i, is_valid).history.len() == s.history.len(),
{
}

/// A word that the rule check accepted is not accepted again while the
/// game goes on: in every later state that still has a reference word and
/// whose used words have only grown, a word with the same canonical form
/// is turned down.
pub proof fn lemma_accepted_word_not_accepted_again(
    s: GameStateView,
    word: Seq<char>,
    later: GameStateView,
    same_word: Seq<char>,
)
    requires
        rules_accept(s, word),
        state_after_rule_check(s, word).used_words.subset_of(later.used_words),
        reference_word(later) is Some,
        normalized(same_word) == normalized(word),
    ensures
        !rules_accept(later, same_word),
{
    assert(state_after_rule_check(s, word).used_words.contains(normalized(word)));
}

} // verus!
