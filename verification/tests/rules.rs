use sanabotti::error::{BotError, ValidationError, ViolationSpan};
use sanabotti::validation::rules::{check_one_letter_difference, RulesValidator};

#[test]
fn test_one_letter_difference() {
    // One letter changed
    assert!(check_one_letter_difference("kissa", "kassa").0);

    // One letter added
    assert!(check_one_letter_difference("kissa", "kissan").0);

    // One letter removed
    assert!(check_one_letter_difference("kissan", "kissa").0);

    // More than one letter changed
    assert!(!check_one_letter_difference("kissa", "koira").0);

    // No change
    assert!(!check_one_letter_difference("kissa", "kissa").0);

    // Too many letters different
    assert!(!check_one_letter_difference("kissa", "kissoilla").0);
}

#[test]
fn test_rules_validator() {
    let mut validator = RulesValidator::default();

    // First word, consider it valid as there's no previous word
    validator.add_word("kissa");

    // Valid moves: one letter changed or added
    assert!(validator.is_valid_move("kissa", "kassa")); // Change
    assert!(validator.is_valid_move("kissa", "kissat")); // Add

    // A removal that leads back to a used word is turned down
    assert!(!validator.is_valid_move("kissat", "kissa"));

    // Invalid: No change
    assert!(!validator.is_valid_move("kissa", "kissa"));
    let result = validator.validate_move("kissa", "kissa");
    assert!(result.is_err());

    // Invalid: More than one letter different
    assert!(!validator.is_valid_move("kissa", "koira"));
    let result = validator.validate_move("kissa", "koira");
    assert!(result.is_err());

    // Invalid: Word used before
    assert!(!validator.is_valid_move("kissat", "kassa")); // Already used "kassa"
    let result = validator.validate_move("kissat", "kassa");
    assert!(result.is_err());
    if let Err(e) = result {
        match e {
            BotError::Validation(ValidationError::AlreadyUsed(_)) => {}
            _ => panic!("Expected AlreadyUsed error"),
        }
    }

    // Check word count: "kissa", "kassa", "kissat"
    assert_eq!(validator.word_count(), 3);

    // Reset and check
    validator.reset();
    assert_eq!(validator.word_count(), 0);
}

#[test]
fn identical_words_carry_a_span_over_the_whole_candidate() {
    let (ok, span) = check_one_letter_difference("kissa", "kissa");
    assert!(!ok);
    assert_eq!(span, Some(ViolationSpan { offset: 0, length: 5 }));
    let (ok, span) = check_one_letter_difference("äiti", "äiti");
    assert!(!ok);
    assert_eq!(span, Some(ViolationSpan { offset: 0, length: 5 }));
    assert_eq!(check_one_letter_difference("kissa", "koira").1, None);
    assert_eq!(check_one_letter_difference("kissa", "kissoilla").1, None);
    assert_eq!(check_one_letter_difference("kissa", "kassa").1, None);
    assert_eq!(check_one_letter_difference("kissa", "kissan").1, None);
}

#[test]
fn equal_length_words_need_exactly_one_mismatch() {
    assert!(check_one_letter_difference("talo", "talu").0);
    assert!(check_one_letter_difference("talo", "malo").0);
    assert!(!check_one_letter_difference("talo", "malu").0);
    assert!(!check_one_letter_difference("talo", "talo").0);
    assert!(!check_one_letter_difference("abc", "cab").0);
    assert!(check_one_letter_difference("äiti", "aiti").0);
    assert!(!check_one_letter_difference("", "").0);
}

#[test]
fn one_insertion_or_deletion_anywhere() {
    assert!(check_one_letter_difference("issa", "kissa").0);
    assert!(check_one_letter_difference("kissa", "issa").0);
    assert!(check_one_letter_difference("kisa", "kissa").0);
    assert!(check_one_letter_difference("kissa", "kisa").0);
    assert!(check_one_letter_difference("", "a").0);
    assert!(check_one_letter_difference("a", "").0);
    assert!(!check_one_letter_difference("kissa", "kassan").0);
    assert!(!check_one_letter_difference("ab", "bac").0);
}

#[test]
fn repeated_characters_do_not_confuse_the_walk() {
    assert!(check_one_letter_difference("aab", "aaab").0);
    assert!(check_one_letter_difference("aaab", "aab").0);
    assert!(check_one_letter_difference("aba", "abba").0);
    assert!(check_one_letter_difference("abab", "aab").0);
    assert!(check_one_letter_difference("baa", "aa").0);
    assert!(!check_one_letter_difference("abab", "bba").0);
}

#[test]
fn lengths_more_than_one_apart_fail() {
    assert!(!check_one_letter_difference("a", "abc").0);
    assert!(!check_one_letter_difference("abc", "a").0);
    assert!(!check_one_letter_difference("", "ab").0);
}

#[test]
fn moves_are_compared_in_canonical_form() {
    let mut validator = RulesValidator::default();
    assert!(validator.is_valid_move("  KISSA ", "Kassa\n"));
    assert_eq!(validator.word_count(), 1);
    match validator.validate_move("kissa", " KASSA") {
        Err(BotError::Validation(ValidationError::AlreadyUsed(word))) => {
            assert_eq!(word, "kassa")
        }
        _ => panic!("a used word must be reported as used"),
    }
    assert!(validator.is_valid_move("ÄITI", "äidi"));
}

#[test]
fn rule_violation_reports_word_span_and_reason() {
    let mut validator = RulesValidator::default();
    match validator.validate_move("Kissa", " KISSA ") {
        Err(BotError::Validation(ValidationError::RuleViolation { word, span, reason })) => {
            assert_eq!(word, "kissa");
            assert_eq!(span, Some(ViolationSpan { offset: 0, length: 5 }));
            assert_eq!(
                reason,
                "Word must differ by exactly one letter (added, removed, or changed)"
            );
        }
        _ => panic!("the same word is no move"),
    }
    match validator.validate_move("kissa", "koira") {
        Err(BotError::Validation(ValidationError::RuleViolation { word, span, .. })) => {
            assert_eq!(word, "koira");
            assert_eq!(span, None);
        }
        _ => panic!("two substitutions are no move"),
    }
    assert_eq!(validator.word_count(), 0);
}

#[test]
fn used_word_is_reported_before_the_rule() {
    let mut validator = RulesValidator::default();
    validator.add_word("koira");
    match validator.validate_move("kissa", "koira") {
        Err(BotError::Validation(ValidationError::AlreadyUsed(word))) => assert_eq!(word, "koira"),
        _ => panic!("a used word must be reported as used"),
    }
}

#[test]
fn accepted_word_is_never_accepted_again() {
    let mut validator = RulesValidator::default();
    assert!(validator.validate_move("kissa", "kassa").is_ok());
    assert!(validator.validate_move("kassa", "passa").is_ok());
    assert!(!validator.is_valid_move("passa", "kassa"));
    assert!(!validator.is_valid_move("kissa", "kassa"));
    validator.add_word("tassu");
    assert!(!validator.is_valid_move("tassa", "tassu"));
    assert_eq!(validator.word_count(), 3);
    validator.add_word("Tassu ");
    assert_eq!(validator.word_count(), 3);
}
