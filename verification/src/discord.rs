//! Which chat messages carry a word for the game.

use vstd::prelude::*;
use vstd::string::*;
use crate::actors::word_validator::ValidateWord;
use crate::text::trimmed;

verus! {

/// A chat message as the game sees it.
pub struct IncomingMessage {
    pub channel_id: u64,
    pub message_id: u64,
    pub author_id: u64,
    pub author_is_bot: bool,
    pub content: String,
}

/// A message carries a word when it was written in the game's channel by
/// somebody who is no bot, and its trimmed text is neither empty nor a
/// command, which starts with `!`.
pub open spec fn carries_word(
    target_channel_id: u64,
    channel_id: u64,
    author_is_bot: bool,
    content: Seq<char>,
) -> bool {
    &&& channel_id == target_channel_id
    &&& !author_is_bot
    &&& trimmed(content).len() > 0
    &&& trimmed(content)[0] != '!'
}

/// The validation request for a chat message, if the message carries a
/// word: the trimmed text with the message's and its author's identity.
pub fn word_from_message(target_channel_id: u64, message: &IncomingMessage) -> (r: Option<
    ValidateWord,
>)
    ensures
        r is Some <==> carries_word(
            target_channel_id,
            message.channel_id,
            message.author_is_bot,
            message.content@,
        ),
        r matches Some(request) ==> {
            &&& request.word@ == trimmed(message.content@)
            &&& request.message_id == message.message_id
            &&& request.user_id == message.author_id
        },
{
    if message.channel_id != target_channel_id {
        return None;
    }
    if message.author_is_bot {
        return None;
    }
    let content = message.content.as_str().trim();
    if content.is_empty() {
        return None;
    }
    if content.get_char(0) == '!' {
        return None;
    }
    Some(
        ValidateWord {
            word: String::from_str(content),
            message_id: message.message_id,
            user_id: message.author_id,
        },
    )
}

} // verus!
