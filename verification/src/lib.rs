//! Validation pipeline of a word-chain game: each new word must differ from
//! the previous one by a single edit, must not repeat, and must be a known
//! word.

pub mod actors;
pub mod config;
pub mod discord;
pub mod error;
pub mod text;
pub mod validation;

pub use error::{BotError, DictionaryError, LLMError, ValidationError, ViolationSpan};
