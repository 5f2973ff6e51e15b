use sanabotti::actors::effect::Effect;
use sanabotti::actors::game_state::{GameStateActor, GetLastValidWord, MarkWordValidity};
use sanabotti::actors::message_reaction::{AddReaction, EMOJI_CHECK, EMOJI_CROSS, EMOJI_QUESTION};
use sanabotti::actors::word_validator::{
    RuleCheck, ValidateWord, WordValidatorActor, RULE_CHECK_TIMEOUT_SECS,
};
use sanabotti::discord::{word_from_message, IncomingMessage};
use sanabotti::error::{BotError, DictionaryError};
use sanabotti::text::{capitalize, check_playable, normalize};

fn orchestrator() -> WordValidatorActor {
    match WordValidatorActor::new("kissa\nkassa\nkoira\ntalo\n") {
        Ok(actor) => actor,
        Err(_) => panic!("the word list holds words"),
    }
}

fn word(text: &str, message_id: u64) -> ValidateWord {
    ValidateWord { word: text.to_string(), message_id, user_id: 11 }
}

#[test]
fn words_are_normalised_by_trimming_and_lowercasing() {
    assert_eq!(normalize("  KiSSa \n"), "kissa");
    assert_eq!(normalize("ÄITI"), "äiti");
    assert_eq!(normalize("   "), "");
}

#[test]
fn only_letters_make_a_playable_word() {
    assert!(check_playable("kissa"));
    assert!(check_playable("äiti"));
    assert!(!check_playable(""));
    assert!(!check_playable("kissa1"));
    assert!(!check_playable("kis sa"));
    assert!(!check_playable("kissa!"));
    assert!(!check_playable("٣"));
    assert!(!check_playable("1"));
}

#[test]
fn first_letter_is_capitalised() {
    assert_eq!(capitalize("helsinki"), "Helsinki");
    assert_eq!(capitalize("äänekoski"), "Äänekoski");
    assert_eq!(capitalize("ßen"), "SSen");
    assert_eq!(capitalize("Turku"), "Turku");
    assert_eq!(capitalize("a"), "A");
    assert_eq!(capitalize(""), "");
}

#[test]
fn empty_word_list_is_refused() {
    match WordValidatorActor::new("\n\n") {
        Err(BotError::Dictionary(DictionaryError::EmptyDictionary)) => {}
        _ => panic!("an empty word list must be refused"),
    }
}

#[test]
fn unplayable_words_are_passed_over() {
    let actor = orchestrator();
    assert!(actor.take_up(word("", 1)).is_none());
    assert!(actor.take_up(word("   ", 1)).is_none());
    assert!(actor.take_up(word("kissa2", 1)).is_none());
    assert!(actor.take_up(word("kaksi sanaa", 1)).is_none());
    assert!(actor.take_up(word("hei!", 1)).is_none());
}

#[test]
fn playable_word_is_taken_up_in_canonical_form() {
    let actor = orchestrator();
    let submission = actor.take_up(word("  KISSA ", 5)).unwrap();
    assert_eq!(submission.register.word, "kissa");
    assert_eq!(submission.register.message_id, 5);
    assert_eq!(submission.register.user_id, 11);
    assert_eq!(submission.rule_check.word, "kissa");
    assert!(submission.is_in_dictionary);
    let submission = actor.take_up(word("Helsinki", 6)).unwrap();
    assert_eq!(submission.register.word, "helsinki");
    assert!(!submission.is_in_dictionary);
}

#[test]
fn rule_check_outcome_decides_what_follows() {
    assert_eq!(RULE_CHECK_TIMEOUT_SECS, 5);
    let followup = WordValidatorActor::conclude("kissa", 3, true, RuleCheck::Accepted);
    assert_eq!(
        followup.effects,
        vec![
            Effect::React(AddReaction { message_id: 3, reaction: EMOJI_CHECK }),
            Effect::Mark(MarkWordValidity { message_id: 3, is_valid: true }),
        ]
    );
    assert!(followup.proper_noun.is_none());

    let followup = WordValidatorActor::conclude("helsinki", 4, false, RuleCheck::Accepted);
    assert_eq!(
        followup.effects,
        vec![Effect::React(AddReaction { message_id: 4, reaction: EMOJI_QUESTION })]
    );
    let request = followup.proper_noun.unwrap();
    assert_eq!(request.word, "Helsinki");
    assert_eq!(request.message_id, 4);

    for known in [true, false] {
        let followup = WordValidatorActor::conclude("koira", 5, known, RuleCheck::Rejected);
        assert_eq!(
            followup.effects,
            vec![Effect::React(AddReaction { message_id: 5, reaction: EMOJI_CROSS })]
        );
        assert!(followup.proper_noun.is_none());
        let followup = WordValidatorActor::conclude("koira", 5, known, RuleCheck::Unanswered);
        assert!(followup.effects.is_empty());
        assert!(followup.proper_noun.is_none());
    }
}

#[test]
fn pipeline_end_to_end() {
    let actor = orchestrator();
    let mut game = GameStateActor::new();

    // first word: accepted, known to the dictionary, marked valid
    let followup = actor.validate_word(&mut game, word("kissa", 1));
    assert_eq!(
        followup.effects,
        vec![
            Effect::React(AddReaction { message_id: 1, reaction: EMOJI_CHECK }),
            Effect::Mark(MarkWordValidity { message_id: 1, is_valid: true }),
        ]
    );
    assert_eq!(game.get_last_valid_word(GetLastValidWord), Some("kissa".to_string()));

    // one substitution
    let followup = actor.validate_word(&mut game, word("Kassa", 2));
    assert_eq!(followup.effects[0], Effect::React(AddReaction { message_id: 2, reaction: EMOJI_CHECK }));
    assert_eq!(game.get_last_valid_word(GetLastValidWord), Some("kassa".to_string()));

    // the same word again
    let followup = actor.validate_word(&mut game, word("kassa", 3));
    assert_eq!(
        followup.effects,
        vec![Effect::React(AddReaction { message_id: 3, reaction: EMOJI_CROSS })]
    );

    // more than one edit
    let followup = actor.validate_word(&mut game, word("koira", 4));
    assert_eq!(
        followup.effects,
        vec![Effect::React(AddReaction { message_id: 4, reaction: EMOJI_CROSS })]
    );
    assert_eq!(game.get_last_valid_word(GetLastValidWord), Some("kassa".to_string()));

    // a rule-accepted word the dictionary does not know awaits confirmation
    let followup = actor.validate_word(&mut game, word("kasva", 5));
    assert_eq!(
        followup.effects,
        vec![Effect::React(AddReaction { message_id: 5, reaction: EMOJI_QUESTION })]
    );
    let request = followup.proper_noun.unwrap();
    assert_eq!(request.word, "Kasva");
    assert_eq!(request.message_id, 5);
    assert_eq!(game.get_last_valid_word(GetLastValidWord), Some("kassa".to_string()));

    // a token with a digit is passed over in silence
    let followup = actor.validate_word(&mut game, word("kasv4", 6));
    assert!(followup.effects.is_empty());
    assert!(followup.proper_noun.is_none());
}

#[test]
fn messages_that_carry_a_word() {
    let message = |channel_id: u64, author_is_bot: bool, content: &str| IncomingMessage {
        channel_id,
        message_id: 77,
        author_id: 5,
        author_is_bot,
        content: content.to_string(),
    };
    let request = word_from_message(10, &message(10, false, "  kissa \n")).unwrap();
    assert_eq!(request.word, "kissa");
    assert_eq!(request.message_id, 77);
    assert_eq!(request.user_id, 5);
    assert!(word_from_message(10, &message(11, false, "kissa")).is_none());
    assert!(word_from_message(10, &message(10, true, "kissa")).is_none());
    assert!(word_from_message(10, &message(10, false, "   ")).is_none());
    assert!(word_from_message(10, &message(10, false, "")).is_none());
    assert!(word_from_message(10, &message(10, false, " !reset")).is_none());
    assert!(word_from_message(10, &message(10, false, "kissa!")).is_some());
}
