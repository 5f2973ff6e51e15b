//! The sequential state holders of the pipeline and the messages they take.

pub mod effect;
pub mod game_state;
pub mod llm_validator;
pub mod message_reaction;
pub mod word_validator;

pub use game_state::GameStateActor;
pub use llm_validator::LLMValidatorActor;
pub use word_validator::WordValidatorActor;
