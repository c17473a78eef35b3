use release_watch::notify::{bot_config, bot_message, release_note, ConfigError};

#[test]
fn config_needs_token_and_chat_id() {
    assert_eq!(bot_config(None, Some("42".to_string())).err(), Some(ConfigError::MissingBotToken));
    assert_eq!(bot_config(None, None).err(), Some(ConfigError::MissingBotToken));
    assert_eq!(bot_config(Some("t".to_string()), None).err(), Some(ConfigError::MissingChatId));
    let c = bot_config(Some("t".to_string()), Some("42".to_string())).ok().unwrap();
    assert_eq!(c.token, "t");
    assert_eq!(c.chat_id, "42");
}

#[test]
fn note_embeds_release_url() {
    assert_eq!(
        release_note("1.39.1"),
        "New version of Nearcore just came out!\n\nhttps://github.com/near/nearcore/releases/tag/1.39.1"
    );
}

#[test]
fn bot_message_targets_send_message() {
    let c = bot_config(Some("123:abc".to_string()), Some("-100".to_string())).ok().unwrap();
    let m = bot_message(&c, "2.0.0");
    assert_eq!(m.url, "https://api.telegram.org/bot123:abc/sendMessage");
    assert_eq!(m.chat_id, "-100");
    assert!(m.text.ends_with("https://github.com/near/nearcore/releases/tag/2.0.0"));
}
