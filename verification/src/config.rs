//! The settings of the bot and how they are read from their textual form.

use vstd::prelude::*;
use vstd::string::*;
use crate::error::BotError;
use crate::text::{chars_of, is_decimal_digit};

verus! {

/// The word list used when none is named.
pub const DEFAULT_DICTIONARY_PATH: &'static str = "./data/finnish_words.txt";

/// The activity shown when none is named.
pub const DEFAULT_BOT_ACTIVITY: &'static str = "Finnish Word Game";

/// The number of words sent to the proper-noun service at once when none
/// is set.
pub const DEFAULT_LLM_BATCH_SIZE: usize = 2;

/// The seconds after which a batch is sent however small it is, when none
/// are set: a day.
pub const DEFAULT_BATCH_TIMEOUT_SECS: u64 = 86400;

/// The settings the bot runs with.
pub struct Config {
    pub discord_token: String,
    pub channel_id: u64,
    pub dictionary_path: String,
    pub bot_activity: String,
    pub llm_batch_size: usize,
    pub batch_timeout_secs: u64,
}

/// The settings in their textual form, each absent or present.
pub struct Settings {
    pub discord_token: Option<String>,
    pub target_channel_id: Option<String>,
    pub dictionary_file_path: Option<String>,
    pub bot_activity: Option<String>,
    pub llm_batch_size: Option<String>,
    pub llm_batch_timeout_secs: Option<String>,
}

/// The number a decimal digit stands for.
pub open spec fn digit_value(c: char) -> nat {
    (c as int - '0' as int) as nat
}

/// The number a sequence of decimal digits stands for.
pub open spec fn decimal_value(digits: Seq<char>) -> nat
    decreases digits.len(),
{
    if digits.len() == 0 {
        0
    } else {
        decimal_value(digits.drop_last()) * 10 + digit_value(digits.last())
    }
}

/// Every character is a decimal digit.
pub open spec fn all_digits(s: Seq<char>) -> bool {
    forall|i: int| 0 <= i < s.len() ==> is_decimal_digit(#[trigger] s[i])
}

/// The text without a leading plus sign.
pub open spec fn without_sign(s: Seq<char>) -> Seq<char> {
    if s.len() > 0 && s[0] == '+' {
        s.drop_first()
    } else {
        s
    }
}

/// The unsigned number a text denotes, if it is at most `max`: an optional
/// plus sign followed by one or more decimal digits and nothing else.
pub open spec fn parsed_unsigned(s: Seq<char>, max: nat) -> Option<nat> {
    let digits = without_sign(s);
    if digits.len() > 0 && all_digits(digits) && decimal_value(digits) <= max {
        Some(decimal_value(digits))
    } else {
        None
    }
}

proof fn lemma_decimal_value_grows(digits: Seq<char>, n: int)
    requires
        0 <= n <= digits.len(),
    ensures
        decimal_value(digits.take(n)) <= decimal_value(digits),
    decreases digits.len() - n,
{
    if n < digits.len() {
        lemma_decimal_value_grows(digits, n + 1);
        assert(digits.take(n + 1).drop_last() =~= digits.take(n));
        assert(decimal_value(digits.take(n)) * 10 >= decimal_value(digits.take(n)));
    } else {
        assert(digits.take(n) =~= digits);
    }
}

/// Reads an unsigned decimal number that fits in 64 bits.
pub fn parse_u64(s: &str) -> (r: Option<u64>)
    ensures
        match r {
            Some(v) => parsed_unsigned(s@, u64::MAX as nat) == Some(v as nat),
            None => parsed_unsigned(s@, u64::MAX as nat) is None,
        },
{
    let chars = chars_of(s);
    let start: usize = if chars.len() > 0 && chars[0] == '+' {
        1
    } else {
        0
    };
    let ghost digits = without_sign(s@);
    if chars.len() == start {
        return None;
    }
    let mut value: u64 = 0;
    let mut i: usize = start;
    while i < chars.len()
        invariant
            chars@ == s@,
            digits == without_sign(s@),
            digits == chars@.subrange(start as int, chars.len() as int),
            start <= i <= chars.len(),
            all_digits(digits.take(i - start)),
            value == decimal_value(digits.take(i - start)),
        decreases chars.len() - i,
    {
        let c = chars[i];
        assert(digits[i - start] == c);
        if !c.is_ascii_digit() {
            return None;
        }
        let d: u64 = (c as u32 - '0' as u32) as u64;
        proof {
            lemma_decimal_value_grows(digits, i - start + 1);
            assert(digits.take(i - start + 1).drop_last() =~= digits.take(i - start));
        }
        if value > (u64::MAX - d) / 10 {
            return None;
        }
        value = value * 10 + d;
        i += 1;
    }
    assert(digits.take(i - start) =~= digits);
    Some(value)
}

/// Reads an unsigned decimal number that fits in a machine word.
pub fn parse_usize(s: &str) -> (r: Option<usize>)
    ensures
        match r {
            Some(v) => parsed_unsigned(s@, usize::MAX as nat) == Some(v as nat),
            None => parsed_unsigned(s@, usize::MAX as nat) is None,
        },
{
    match parse_u64(s) {
        Some(v) => if v <= usize::MAX as u64 {
            Some(v as usize)
        } else {
            None
        },
        None => None,
    }
}

/// What is wrong with the settings, if anything: the first of a missing
/// token, a missing or malformed channel, a malformed batch size and a
/// malformed batch timeout.
pub open spec fn config_failure(settings: Settings) -> Option<Seq<char>> {
    if settings.discord_token is None {
        Some("Missing DISCORD_TOKEN"@)
    } else if settings.target_channel_id is None {
        Some("Missing TARGET_CHANNEL_ID"@)
    } else if parsed_unsigned(settings.target_channel_id->0@, u64::MAX as nat) is None {
        Some("Invalid TARGET_CHANNEL_ID"@)
    } else if settings.llm_batch_size is Some && parsed_unsigned(
        settings.llm_batch_size->0@,
        usize::MAX as nat,
    ) is None {
        Some("Invalid LLM_BATCH_SIZE"@)
    } else if settings.llm_batch_timeout_secs is Some && parsed_unsigned(
        settings.llm_batch_timeout_secs->0@,
        u64::MAX as nat,
    ) is None {
        Some("Invalid LLM_BATCH_TIMEOUT_SECS"@)
    } else {
        None
    }
}

/// The text of a setting, or the default where it is absent.
pub open spec fn text_or(setting: Option<String>, default: Seq<char>) -> Seq<char> {
    match setting {
        Some(text) => text@,
        None => default,
    }
}

/// The number of a setting, or the default where it is absent.
pub open spec fn number_or(setting: Option<String>, max: nat, default: nat) -> nat {
    match setting {
        Some(text) => parsed_unsigned(text@, max).unwrap(),
        None => default,
    }
}

/// Builds the configuration from the textual settings. The token and the
/// channel are required; every other setting has a default. A number that
/// is present must be well-formed.
pub fn load_config(settings: Settings) -> (r: Result<Config, BotError>)
    ensures
        match r {
            Ok(config) => {
                &&& config_failure(settings) is None
                &&& config.discord_token@ == settings.discord_token->0@
                &&& config.channel_id == parsed_unsigned(
                    settings.target_channel_id->0@,
                    u64::MAX as nat,
                ).unwrap()
                &&& config.dictionary_path@ == text_or(
                    settings.dictionary_file_path,
                    DEFAULT_DICTIONARY_PATH@,
                )
                &&& config.bot_activity@ == text_or(settings.bot_activity, DEFAULT_BOT_ACTIVITY@)
                &&& config.llm_batch_size == number_or(
                    settings.llm_batch_size,
                    usize::MAX as nat,
                    DEFAULT_LLM_BATCH_SIZE as nat,
                )
                &&& config.batch_timeout_secs == number_or(
                    settings.llm_batch_timeout_secs,
                    u64::MAX as nat,
                    DEFAULT_BATCH_TIMEOUT_SECS as nat,
                )
            },
            Err(e) => {
                &&& e matches BotError::Config(message)
                &&& config_failure(settings) == Some(message@)
            },
        },
{
    let discord_token = match settings.discord_token {
        Some(token) => token,
        None => {
            return Err(BotError::Config(String::from_str("Missing DISCORD_TOKEN")));
        },
    };
    let channel_text = match settings.target_channel_id {
        Some(text) => text,
        None => {
            return Err(BotError::Config(String::from_str("Missing TARGET_CHANNEL_ID")));
        },
    };
    let channel_id = match parse_u64(channel_text.as_str()) {
        Some(id) => id,
        None => {
            return Err(BotError::Config(String::from_str("Invalid TARGET_CHANNEL_ID")));
        },
    };
    let dictionary_path = match settings.dictionary_file_path {
        Some(path) => path,
        None => String::from_str(DEFAULT_DICTIONARY_PATH),
    };
    let bot_activity = match settings.bot_activity {
        Some(activity) => activity,
        None => String::from_str(DEFAULT_BOT_ACTIVITY),
    };
    let llm_batch_size = match settings.llm_batch_size {
        Some(text) => match parse_usize(text.as_str()) {
            Some(size) => size,
            None => {
                return Err(BotError::Config(String::from_str("Invalid LLM_BATCH_SIZE")));
            },
        },
        None => DEFAULT_LLM_BATCH_SIZE,
    };
    let batch_timeout_secs = match settings.llm_batch_timeout_secs {
        Some(text) => match parse_u64(text.as_str()) {
            Some(secs) => secs,
            None => {
                return Err(BotError::Config(String::from_str("Invalid LLM_BATCH_TIMEOUT_SECS")));
            },
        },
        None => DEFAULT_BATCH_TIMEOUT_SECS,
    };
    Ok(
        Config {
            discord_token,
            channel_id,
            dictionary_path,
            bot_activity,
            llm_batch_size,
            batch_timeout_secs,
        },
    )
}

} // verus!
