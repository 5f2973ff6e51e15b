//! The checks a word has to pass.

pub mod dictionary;
pub mod llm;
pub mod rules;

pub use dictionary::DictionaryValidator;
pub use llm::LLMValidator;
pub use rules::RulesValidator;
