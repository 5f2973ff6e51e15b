use sanabotti::actors::effect::Effect;
use sanabotti::actors::game_state::MarkWordValidity;
use sanabotti::actors::llm_validator::{
    resolve_batch, words_of, LLMValidatorActor, QueueEntry, TriggerBatchValidation,
    ValidateProperNoun, POLL_INTERVAL_SECS,
};
use sanabotti::actors::message_reaction::{
    clear_pending_indicator, indicate, AddReaction, DeleteReaction, Indication, EMOJI_CHECK,
    EMOJI_CROSS, EMOJI_QUESTION,
};
use sanabotti::config::Config;
use sanabotti::error::{BotError, LLMError};
use sanabotti::validation::llm::{LLMValidator, ProperNounResponse, VerdictMap};

fn config(llm_batch_size: usize, batch_timeout_secs: u64) -> Config {
    Config {
        discord_token: "token".to_string(),
        channel_id: 1,
        dictionary_path: "words.txt".to_string(),
        bot_activity: "game".to_string(),
        llm_batch_size,
        batch_timeout_secs,
    }
}

fn noun(word: &str, message_id: u64) -> ValidateProperNoun {
    ValidateProperNoun { word: word.to_string(), message_id }
}

fn response(word: &str, is_proper_noun: bool) -> ProperNounResponse {
    ProperNounResponse {
        word: word.to_string(),
        is_proper_noun,
        explanation: "selitys".to_string(),
    }
}

#[test]
fn two_words_with_batch_size_two_are_due_at_once() {
    let mut scheduler = LLMValidatorActor::new(&config(2, 86400), 1000);
    assert!(!scheduler.enqueue(noun("Helsinki", 1), 1000));
    assert!(scheduler.enqueue(noun("Turku", 2), 1000));
    assert_eq!(scheduler.queue_len(), 2);
}

#[test]
fn batch_is_due_by_size_or_by_age() {
    let mut scheduler = LLMValidatorActor::new(&config(3, 60), 100);
    // an empty queue is never due by age
    assert!(!scheduler.should_trigger_batch(100));
    assert!(!scheduler.should_trigger_batch(100_000));
    assert!(!scheduler.enqueue(noun("Helsinki", 1), 110));
    // exactly the timeout is not yet more than the timeout
    assert!(!scheduler.should_trigger_batch(160));
    assert!(scheduler.should_trigger_batch(161));
    // a clock that reads before the last batch counts as no time passed
    assert!(!scheduler.should_trigger_batch(5));
    assert!(!scheduler.enqueue(noun("Turku", 2), 120));
    assert!(scheduler.enqueue(noun("Oulu", 3), 120));
    assert!(scheduler.should_trigger_batch(120));
}

#[test]
fn poll_interval_is_ten_seconds() {
    assert_eq!(POLL_INTERVAL_SECS, 10);
}

#[test]
fn batch_takes_the_oldest_entries_first() {
    let mut scheduler = LLMValidatorActor::new(&config(2, 60), 0);
    scheduler.enqueue(noun("Helsinki", 1), 1);
    scheduler.enqueue(noun("Turku", 2), 2);
    scheduler.enqueue(noun("Oulu", 3), 3);
    let batch = scheduler.trigger_batch_validation(TriggerBatchValidation, 10).unwrap();
    assert_eq!(batch.entries.len(), 2);
    assert_eq!(batch.entries[0].word, "Helsinki");
    assert_eq!(batch.entries[0].message_id, 1);
    assert_eq!(batch.entries[1].word, "Turku");
    assert_eq!(batch.entries[1].message_id, 2);
    assert_eq!(batch.words_json, "[\"Helsinki\",\"Turku\"]");
    assert_eq!(scheduler.queue_len(), 1);
    // the timeout now counts from the batch
    assert!(!scheduler.should_trigger_batch(70));
    assert!(scheduler.should_trigger_batch(71));
    let batch = scheduler.trigger_batch_validation(TriggerBatchValidation, 71).unwrap();
    assert_eq!(batch.entries.len(), 1);
    assert_eq!(batch.entries[0].word, "Oulu");
    assert_eq!(batch.words_json, "[\"Oulu\"]");
    assert_eq!(scheduler.queue_len(), 0);
}

#[test]
fn empty_queue_gives_no_batch_and_keeps_the_clock() {
    let mut scheduler = LLMValidatorActor::new(&config(2, 60), 0);
    assert!(scheduler.trigger_batch_validation(TriggerBatchValidation, 50).is_none());
    scheduler.enqueue(noun("Helsinki", 1), 55);
    assert!(scheduler.should_trigger_batch(61));
}

#[test]
fn batch_size_zero_still_takes_one_entry() {
    let mut scheduler = LLMValidatorActor::new(&config(0, 60), 0);
    assert!(scheduler.should_trigger_batch(0));
    assert!(scheduler.enqueue(noun("Helsinki", 1), 0));
    scheduler.enqueue(noun("Turku", 2), 0);
    let batch = scheduler.trigger_batch_validation(TriggerBatchValidation, 0).unwrap();
    assert_eq!(batch.entries.len(), 1);
    assert_eq!(scheduler.queue_len(), 1);
}

#[test]
fn words_are_written_as_a_json_list() {
    let mut scheduler = LLMValidatorActor::new(&config(5, 60), 0);
    scheduler.enqueue(noun("Sanoi \"hei\"", 1), 0);
    scheduler.enqueue(noun("Äänekoski", 2), 0);
    let batch = scheduler.trigger_batch_validation(TriggerBatchValidation, 0).unwrap();
    assert_eq!(batch.words_json, "[\"Sanoi \\\"hei\\\"\",\"Äänekoski\"]");
}

#[test]
fn resolved_words_are_settled_in_order() {
    let mut validator = LLMValidator::new("gemini-pro");
    let results = validator.finish_json_batch(
        VerdictMap::new(),
        &vec![response("Helsinki", true), response("Poyta", false)],
    );
    let entries = vec![
        QueueEntry { word: "Helsinki".to_string(), message_id: 1 },
        QueueEntry { word: "Poyta".to_string(), message_id: 2 },
        QueueEntry { word: "Turku".to_string(), message_id: 3 },
    ];
    let effects = resolve_batch(&entries, &results);
    assert_eq!(
        effects,
        vec![
            Effect::Unreact(DeleteReaction { message_id: 1, reaction: EMOJI_QUESTION }),
            Effect::Mark(MarkWordValidity { message_id: 1, is_valid: true }),
            Effect::React(AddReaction { message_id: 1, reaction: EMOJI_CHECK }),
            Effect::Unreact(DeleteReaction { message_id: 2, reaction: EMOJI_QUESTION }),
            Effect::Mark(MarkWordValidity { message_id: 2, is_valid: false }),
            Effect::React(AddReaction { message_id: 2, reaction: EMOJI_CROSS }),
            Effect::React(AddReaction { message_id: 3, reaction: EMOJI_CROSS }),
        ]
    );
}

#[test]
fn failed_call_leaves_the_asked_words_unresolved() {
    let mut validator = LLMValidator::new("gemini-pro");
    validator.finish_json_batch(VerdictMap::new(), &vec![response("Helsinki", true)]);
    let words = vec!["Helsinki".to_string(), "Turku".to_string()];
    let (cached, to_ask) = validator.partition_by_cache(&words);
    assert_eq!(to_ask, vec!["Turku".to_string()]);
    let (results, error) =
        validator.settle_json_batch(cached, Err(BotError::LLM(LLMError::Timeout)));
    match error {
        Some(BotError::LLM(LLMError::Timeout)) => {}
        _ => panic!("the failure is handed back"),
    }
    let entries = vec![
        QueueEntry { word: "Helsinki".to_string(), message_id: 1 },
        QueueEntry { word: "Turku".to_string(), message_id: 2 },
    ];
    let effects = resolve_batch(&entries, &results);
    assert_eq!(
        effects,
        vec![
            Effect::Unreact(DeleteReaction { message_id: 1, reaction: EMOJI_QUESTION }),
            Effect::Mark(MarkWordValidity { message_id: 1, is_valid: true }),
            Effect::React(AddReaction { message_id: 1, reaction: EMOJI_CHECK }),
            Effect::React(AddReaction { message_id: 2, reaction: EMOJI_CROSS }),
        ]
    );
    // nothing was remembered of the failed call
    let (_, to_ask) = validator.partition_by_cache(&words);
    assert_eq!(to_ask, vec!["Turku".to_string()]);
}

#[test]
fn batch_without_any_verdict_is_wholly_unresolved() {
    let entries = vec![
        QueueEntry { word: "Helsinki".to_string(), message_id: 1 },
        QueueEntry { word: "Turku".to_string(), message_id: 2 },
    ];
    let effects = resolve_batch(&entries, &VerdictMap::new());
    assert_eq!(
        effects,
        vec![
            Effect::React(AddReaction { message_id: 1, reaction: EMOJI_CROSS }),
            Effect::React(AddReaction { message_id: 2, reaction: EMOJI_CROSS }),
        ]
    );
}

#[test]
fn answered_batch_is_settled_like_a_finished_one() {
    let mut validator = LLMValidator::new("gemini-pro");
    let (results, error) = validator
        .settle_json_batch(VerdictMap::new(), Ok(vec![response("Oulu", true), response("Talo", false)]));
    assert!(error.is_none());
    assert_eq!(results.len(), 2);
    assert!(results.get("Oulu").unwrap().is_proper_noun);
    assert_eq!(results.get("Oulu").unwrap().explanation, "");
    let (cached, to_ask) = validator.partition_by_cache(&vec!["oulu".to_string()]);
    assert!(to_ask.is_empty());
    assert_eq!(cached.len(), 1);
}

#[test]
fn results_are_looked_up_by_the_exact_word() {
    let mut validator = LLMValidator::new("gemini-pro");
    let results = validator.finish_json_batch(VerdictMap::new(), &vec![response("helsinki", true)]);
    let entries = vec![QueueEntry { word: "Helsinki".to_string(), message_id: 1 }];
    let effects = resolve_batch(&entries, &results);
    assert_eq!(effects, vec![Effect::React(AddReaction { message_id: 1, reaction: EMOJI_CROSS })]);
}

#[test]
fn indications_map_to_reactions() {
    assert_eq!(EMOJI_CHECK, '✅');
    assert_eq!(EMOJI_CROSS, '❌');
    assert_eq!(EMOJI_QUESTION, '❓');
    assert_eq!(indicate(4, Indication::Pending), AddReaction { message_id: 4, reaction: '❓' });
    assert_eq!(indicate(4, Indication::Success), AddReaction { message_id: 4, reaction: '✅' });
    assert_eq!(indicate(4, Indication::Failure), AddReaction { message_id: 4, reaction: '❌' });
    assert_eq!(clear_pending_indicator(9), DeleteReaction { message_id: 9, reaction: '❓' });
}

#[test]
fn entries_are_taken_in_batches_of_the_configured_size() {
    let mut scheduler = LLMValidatorActor::new(&config(2, 60), 0);
    assert!(scheduler.take_batch(3).is_empty());
    for (n, word) in ["A", "B", "C", "D", "E"].iter().enumerate() {
        scheduler.enqueue(noun(word, n as u64), 4);
    }
    let first = scheduler.take_batch(5);
    assert_eq!(words_of(&first), vec!["A".to_string(), "B".to_string()]);
    let second = scheduler.take_batch(6);
    assert_eq!(words_of(&second), vec!["C".to_string(), "D".to_string()]);
    let third = scheduler.take_batch(7);
    assert_eq!(words_of(&third), vec!["E".to_string()]);
    assert_eq!(third[0].message_id, 4);
    assert!(scheduler.take_batch(8).is_empty());
    assert_eq!(scheduler.queue_len(), 0);
}
