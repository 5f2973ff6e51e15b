//! The orchestrator: takes a submitted word through registration, the rule
//! check and the dictionary, and decides what follows.

use vstd::prelude::*;
use vstd::string::*;
use crate::actors::effect::Effect;
use crate::actors::game_state::{
    is_first_match,
    rules_accept,
    state_after_mark,
    state_after_register,
    state_after_rule_check,
    GameStateActor,
    MarkWordValidity,
    RegisterWord,
    ValidateGameRules,
};
use crate::actors::llm_validator::ValidateProperNoun;
use crate::actors::message_reaction::{indicate, reaction_of, AddReaction, Indication};
use crate::error::BotError;
use crate::text::{capitalize, capitalized, check_playable, is_playable, normalize, normalized};
use crate::validation::dictionary::{lines_of, words_of_lines, DictionaryValidator};

verus! {

/// The seconds the orchestrator waits for the answer of the rule check.
pub const RULE_CHECK_TIMEOUT_SECS: u64 = 5;

/// Message to validate a word.
pub struct ValidateWord {
    pub word: String,
    pub message_id: u64,
    pub user_id: u64,
}

/// A word that was taken up: what the game state is sent, and whether the
/// dictionary knows the word.
pub struct Submission {
    pub register: RegisterWord,
    pub rule_check: ValidateGameRules,
    pub is_in_dictionary: bool,
}

/// How the rule check of a word ended.
#[derive(Debug, Clone, Copy, PartialEq, Eq, Structural)]
pub enum RuleCheck {
    /// The word follows the game rules.
    Accepted,
    /// The word breaks the game rules.
    Rejected,
    /// No answer came in time.
    Unanswered,
}

/// What follows the rule check of a word.
pub struct Followup {
    /// What the reaction sink and the game state are sent.
    pub effects: Vec<Effect>,
    /// What the batch scheduler is sent, if anything.
    pub proper_noun: Option<ValidateProperNoun>,
}

/// The effects that follow the rule check of the word of a message. An
/// accepted word of the dictionary is shown as accepted and marked valid;
/// an accepted word the dictionary does not know is shown as pending; a
/// rejected word is shown as turned down; without an answer nothing is
/// shown.
pub open spec fn followup_effects(message_id: u64, is_in_dictionary: bool, outcome: RuleCheck) -> Seq<
    Effect,
> {
    match outcome {
        RuleCheck::Accepted => if is_in_dictionary {
            seq![
                Effect::React(
                    AddReaction { message_id, reaction: reaction_of(Indication::Success) },
                ),
                Effect::Mark(MarkWordValidity { message_id, is_valid: true }),
            ]
        } else {
            seq![
                Effect::React(
                    AddReaction { message_id, reaction: reaction_of(Indication::Pending) },
                ),
            ]
        },
        RuleCheck::Rejected => seq![
            Effect::React(AddReaction { message_id, reaction: reaction_of(Indication::Failure) }),
        ],
        RuleCheck::Unanswered => Seq::empty(),
    }
}

/// Whether the word goes on to the batch scheduler: when it follows the
/// rules and the dictionary does not know it.
pub open spec fn needs_confirmation(is_in_dictionary: bool, outcome: RuleCheck) -> bool {
    outcome is Accepted && !is_in_dictionary
}

/// Validates words against a dictionary and the game rules.
pub struct WordValidatorActor {
    dictionary_validator: DictionaryValidator,
}

impl View for WordValidatorActor {
    type V = Set<Seq<char>>;

    /// The words of the dictionary.
    closed spec fn view(&self) -> Set<Seq<char>> {
        self.dictionary_validator@
    }
}

impl WordValidatorActor {
    /// An orchestrator over the dictionary that a word list yields: text
    /// with one word per line. A list without any word is refused.
    pub fn new(word_list: &str) -> (r: Result<Self, BotError>)
        ensures
            match r {
                Ok(actor) => actor@ == words_of_lines(lines_of(word_list@)),
                Err(e) => {
                    &&& e matches BotError::Dictionary(
                        crate::error::DictionaryError::EmptyDictionary,
                    )
                    &&& words_of_lines(lines_of(word_list@)) == Set::<Seq<char>>::empty()
                },
            },
    {
        match DictionaryValidator::new(word_list) {
            Ok(dictionary_validator) => Ok(WordValidatorActor { dictionary_validator }),
            Err(e) => Err(e),
        }
    }

    /// Takes up a submitted word. The word is brought into canonical form;
    /// an empty word, or one that holds anything but letters, is passed
    /// over. For any other word the registration and the rule check for the
    /// game state are drawn up, and the dictionary is asked.
    pub fn take_up(&self, msg: ValidateWord) -> (r: Option<Submission>)
        ensures
            r is Some <==> is_playable(normalized(msg.word@)),
            r matches Some(submission) ==> {
                &&& submission.register.word@ == normalized(msg.word@)
                &&& submission.register.user_id == msg.user_id
                &&& submission.register.message_id == msg.message_id
                &&& submission.rule_check.word@ == normalized(msg.word@)
                &&& submission.is_in_dictionary == self@.contains(
                    normalized(normalized(msg.word@)),
                )
            },
    {
        let word = normalize(msg.word.as_str());
        if !check_playable(word.as_str()) {
            return None;
        }
        let is_in_dictionary = self.dictionary_validator.is_valid_word(word.as_str());
        Some(
            Submission {
                register: RegisterWord {
                    word: word.clone(),
                    user_id: msg.user_id,
                    message_id: msg.message_id,
                },
                rule_check: ValidateGameRules { word },
                is_in_dictionary,
            },
        )
    }

    /// Decides what follows the rule check of a word. A word that follows
    /// the rules but is unknown to the dictionary goes to the batch
    /// scheduler with its first letter in upper case.
    pub fn conclude(word: &str, message_id: u64, is_in_dictionary: bool, outcome: RuleCheck) -> (r:
        Followup)
        ensures
            r.effects@ == followup_effects(message_id, is_in_dictionary, outcome),
            r.proper_noun is Some <==> needs_confirmation(is_in_dictionary, outcome),
            r.proper_noun matches Some(request) ==> {
                &&& request.word@ == capitalized(word@)
                &&& request.message_id == message_id
            },
    {
        let mut effects: Vec<Effect> = Vec::new();
        let mut proper_noun: Option<ValidateProperNoun> = None;
        match outcome {
            RuleCheck::Accepted => {
                if is_in_dictionary {
                    effects.push(Effect::React(indicate(message_id, Indication::Success)));
                    effects.push(Effect::Mark(MarkWordValidity { message_id, is_valid: true }));
                } else {
                    effects.push(Effect::React(indicate(message_id, Indication::Pending)));
                    proper_noun = Some(ValidateProperNoun { word: capitalize(word), message_id });
                }
            },
            RuleCheck::Rejected => {
                effects.push(Effect::React(indicate(message_id, Indication::Failure)));
            },
            RuleCheck::Unanswered => {},
        }
        assert(effects@ =~= followup_effects(message_id, is_in_dictionary, outcome));
        Followup { effects, proper_noun }
    }

    /// Takes a submitted word through the whole pipeline on a game state at
    /// hand: the word is registered, checked against the rules, looked up
    /// in the dictionary, and marked valid where both accept it. What is
    /// returned is still to be delivered to the reaction sink and to the
    /// batch scheduler; the mark among the effects has been applied.
    pub fn validate_word(&self, game_state: &mut GameStateActor, msg: ValidateWord) -> (r: Followup)
        requires
            old(game_state).wf(),
        ensures
            final(game_state).wf(),
            !is_playable(normalized(msg.word@)) ==> {
                &&& final(game_state)@ == old(game_state)@
                &&& r.effects@ == Seq::<Effect>::empty()
                &&& r.proper_noun is None
            },
            is_playable(normalized(msg.word@)) ==> {
                let word = normalized(msg.word@);
                let registered = state_after_register(
                    old(game_state)@,
                    word,
                    msg.user_id,
                    msg.message_id,
                );
                let outcome = if rules_accept(registered, word) {
                    RuleCheck::Accepted
                } else {
                    RuleCheck::Rejected
                };
                let checked = state_after_rule_check(registered, word);
                let is_in_dictionary = self@.contains(normalized(word));
                &&& r.effects@ == followup_effects(msg.message_id, is_in_dictionary, outcome)
                &&& r.proper_noun is Some <==> needs_confirmation(is_in_dictionary, outcome)
                &&& r.proper_noun matches Some(request) ==> {
                    &&& request.word@ == capitalized(word)
                    &&& request.message_id == msg.message_id
                }
                &&& if outcome is Accepted && is_in_dictionary {
                    forall|i: int|
                        is_first_match(checked.history, msg.message_id, i) ==> final(game_state)@
                            == state_after_mark(checked, i, true)
                } else {
                    final(game_state)@ == checked
                }
            },
    {
        let message_id = msg.message_id;
        let submission = match self.take_up(msg) {
            Some(submission) => submission,
            None => {
                return Followup { effects: Vec::new(), proper_noun: None };
            },
        };
        let word = submission.rule_check.word.clone();
        game_state.register_word(submission.register);
        let accepted = game_state.validate_game_rules(submission.rule_check);
        let outcome = if accepted {
            RuleCheck::Accepted
        } else {
            RuleCheck::Rejected
        };
        let followup = Self::conclude(
            word.as_str(),
            message_id,
            submission.is_in_dictionary,
            outcome,
        );
        if accepted && submission.is_in_dictionary {
            game_state.mark_word_validity(MarkWordValidity { message_id, is_valid: true });
        }
        followup
    }
}

} // verus!
