//! What a step of the pipeline asks its surroundings to do.

use vstd::prelude::*;
use crate::actors::game_state::MarkWordValidity;
use crate::actors::message_reaction::{AddReaction, DeleteReaction};

verus! {

/// A message to be delivered: to the reaction sink or to the game state.
#[derive(Debug, Clone, Copy, PartialEq, Eq, Structural)]
pub enum Effect {
    /// Show a reaction on a message.
    React(AddReaction),
    /// Take a reaction off a message.
    Unreact(DeleteReaction),
    /// Tell the game state how a word fared.
    Mark(MarkWordValidity),
}

} // verus!
