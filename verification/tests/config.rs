use sanabotti::config::{
    load_config, parse_u64, parse_usize, Settings, DEFAULT_BATCH_TIMEOUT_SECS,
    DEFAULT_BOT_ACTIVITY, DEFAULT_DICTIONARY_PATH, DEFAULT_LLM_BATCH_SIZE,
};
use sanabotti::error::BotError;

fn text(s: &str) -> Option<String> {
    Some(s.to_string())
}

fn minimal() -> Settings {
    Settings {
        discord_token: text("SECRET"),
        target_channel_id: text("1234567890"),
        dictionary_file_path: None,
        bot_activity: None,
        llm_batch_size: None,
        llm_batch_timeout_secs: None,
    }
}

fn failure(settings: Settings) -> String {
    match load_config(settings) {
        Err(BotError::Config(message)) => message,
        _ => panic!("the settings must be refused"),
    }
}

#[test]
fn unsigned_numbers_are_read_as_std_reads_them() {
    for s in [
        "0", "7", "007", "+5", "86400", "18446744073709551615", "18446744073709551616",
        "99999999999999999999999", "", "+", "-1", "-0", " 1", "1 ", "1_000", "0x10", "١٢", "++1",
        "1+", "12a",
    ] {
        assert_eq!(parse_u64(s), s.parse::<u64>().ok());
        assert_eq!(parse_usize(s), s.parse::<usize>().ok());
    }
    assert_eq!(parse_u64("18446744073709551615"), Some(u64::MAX));
    assert_eq!(parse_u64("18446744073709551616"), None);
    assert_eq!(parse_u64("+42"), Some(42));
    assert_eq!(parse_usize("2"), Some(2));
}

#[test]
fn defaults_fill_what_is_absent() {
    let config = load_config(minimal()).unwrap();
    assert_eq!(config.discord_token, "SECRET");
    assert_eq!(config.channel_id, 1234567890);
    assert_eq!(config.dictionary_path, "./data/finnish_words.txt");
    assert_eq!(config.bot_activity, "Finnish Word Game");
    assert_eq!(config.llm_batch_size, 2);
    assert_eq!(config.batch_timeout_secs, 86400);
    assert_eq!(DEFAULT_DICTIONARY_PATH, "./data/finnish_words.txt");
    assert_eq!(DEFAULT_BOT_ACTIVITY, "Finnish Word Game");
    assert_eq!(DEFAULT_LLM_BATCH_SIZE, 2);
    assert_eq!(DEFAULT_BATCH_TIMEOUT_SECS, 86400);
}

#[test]
fn present_settings_are_taken() {
    let config = load_config(Settings {
        discord_token: text("abc"),
        target_channel_id: text("42"),
        dictionary_file_path: text("/tmp/sanat.txt"),
        bot_activity: text("Sanapeli"),
        llm_batch_size: text("5"),
        llm_batch_timeout_secs: text("30"),
    })
    .unwrap();
    assert_eq!(config.discord_token, "abc");
    assert_eq!(config.channel_id, 42);
    assert_eq!(config.dictionary_path, "/tmp/sanat.txt");
    assert_eq!(config.bot_activity, "Sanapeli");
    assert_eq!(config.llm_batch_size, 5);
    assert_eq!(config.batch_timeout_secs, 30);
}

#[test]
fn each_faulty_setting_has_its_message() {
    assert_eq!(failure(Settings { discord_token: None, ..minimal() }), "Missing DISCORD_TOKEN");
    assert_eq!(
        failure(Settings { target_channel_id: None, ..minimal() }),
        "Missing TARGET_CHANNEL_ID"
    );
    assert_eq!(
        failure(Settings { target_channel_id: text("abc"), ..minimal() }),
        "Invalid TARGET_CHANNEL_ID"
    );
    assert_eq!(
        failure(Settings { llm_batch_size: text("-2"), ..minimal() }),
        "Invalid LLM_BATCH_SIZE"
    );
    assert_eq!(
        failure(Settings { llm_batch_timeout_secs: text("soon"), ..minimal() }),
        "Invalid LLM_BATCH_TIMEOUT_SECS"
    );
}

#[test]
fn first_fault_is_reported() {
    assert_eq!(
        failure(Settings {
            discord_token: None,
            target_channel_id: None,
            llm_batch_size: text("x"),
            ..minimal()
        }),
        "Missing DISCORD_TOKEN"
    );
    assert_eq!(
        failure(Settings {
            target_channel_id: text(""),
            llm_batch_size: text("x"),
            llm_batch_timeout_secs: text("y"),
            ..minimal()
        }),
        "Invalid TARGET_CHANNEL_ID"
    );
    assert_eq!(
        failure(Settings {
            llm_batch_size: text("x"),
            llm_batch_timeout_secs: text("y"),
            ..minimal()
        }),
        "Invalid LLM_BATCH_SIZE"
    );
}
