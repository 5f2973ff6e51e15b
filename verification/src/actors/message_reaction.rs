//! What the pipeline asks of the reaction sink.

use vstd::prelude::*;

verus! {

/// Shown on a word that passed every check.
pub const EMOJI_CHECK: char = '\u{2705}';

/// Shown on a word that was turned down.
pub const EMOJI_CROSS: char = '\u{274C}';

/// Shown on a word that awaits confirmation as a proper noun.
pub const EMOJI_QUESTION: char = '\u{2753}';

/// Message to add a reaction to a chat message.
#[derive(Debug, Clone, Copy, PartialEq, Eq, Structural)]
pub struct AddReaction {
    pub message_id: u64,
    pub reaction: char,
}

/// Message to clear all reactions from a chat message.
#[derive(Debug, Clone, Copy, PartialEq, Eq, Structural)]
pub struct ClearReactions {
    pub message_id: u64,
}

/// Message to delete one reaction from a chat message.
#[derive(Debug, Clone, Copy, PartialEq, Eq, Structural)]
pub struct DeleteReaction {
    pub message_id: u64,
    pub reaction: char,
}

/// What a word's submitter is shown.
#[derive(Debug, Clone, Copy, PartialEq, Eq, Structural)]
pub enum Indication {
    Pending,
    Success,
    Failure,
}

/// The reaction that stands for an indication.
pub open spec fn reaction_of(indication: Indication) -> char {
    match indication {
        Indication::Pending => EMOJI_QUESTION,
        Indication::Success => EMOJI_CHECK,
        Indication::Failure => EMOJI_CROSS,
    }
}

/// The request that shows `indication` on a message.
pub fn indicate(message_id: u64, indication: Indication) -> (r: AddReaction)
    ensures
        r == (AddReaction { message_id, reaction: reaction_of(indication) }),
{
    let reaction = match indication {
        Indication::Pending => EMOJI_QUESTION,
        Indication::Success => EMOJI_CHECK,
        Indication::Failure => EMOJI_CROSS,
    };
    AddReaction { message_id, reaction }
}

/// The request that takes the pending indication off a message.
pub fn clear_pending_indicator(message_id: u64) -> (r: DeleteReaction)
    ensures
        r == (DeleteReaction { message_id, reaction: EMOJI_QUESTION }),
{
    DeleteReaction { message_id, reaction: EMOJI_QUESTION }
}

} // verus!
