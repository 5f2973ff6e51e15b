//! Error values of the validation pipeline.

use vstd::prelude::*;

verus! {

/// The error of `std::io`; nothing is known of what it holds.
#[verifier::external_type_specification]
#[verifier::external_body]
pub struct ExIoError(std::io::Error);

/// The error of `serenity`; nothing is known of what it holds.
#[verifier::external_type_specification]
#[verifier::external_body]
pub struct ExDiscordError(serenity::Error);

/// A region of a word, counted in bytes of its UTF-8 encoding.
#[derive(Debug, Clone, Copy, PartialEq, Eq, Structural)]
pub struct ViolationSpan {
    pub offset: usize,
    pub length: usize,
}

/// Why a dictionary could not be built.
#[derive(Debug)]
pub enum DictionaryError {
    /// The word list could not be read.
    LoadError(std::io::Error),
    /// The word list is malformed.
    FormatError(String),
    /// The word list holds no word.
    EmptyDictionary,
}

/// Why a word was turned down.
#[derive(Debug)]
pub enum ValidationError {
    /// The word is not in the dictionary.
    NotInDictionary(String),
    /// The word is not one edit away from the word before it.
    RuleViolation { word: String, span: Option<ViolationSpan>, reason: String },
    /// The word was already played in this game.
    AlreadyUsed(String),
}

/// Why the proper-noun service gave no verdict.
#[derive(Debug)]
pub enum LLMError {
    ApiError(String),
    ParseError(String),
    RateLimit,
    Timeout,
}

/// Any failure the pipeline reports.
#[derive(Debug)]
pub enum BotError {
    Discord(serenity::Error),
    Config(String),
    Dictionary(DictionaryError),
    Validation(ValidationError),
    Actor(String),
    Io(std::io::Error),
    LLM(LLMError),
    Reaction(String),
}

} // verus!
