use vstd::prelude::*;

verus! {

/// A required setting that is absent.
#[derive(Debug, Clone, Copy, PartialEq, Eq, Structural)]
pub enum ConfigError {
    /// No bot token was given.
    MissingBotToken,
    /// No chat id was given.
    MissingChatId,
}

/// Where the bot channel sends its message.
pub struct BotConfig {
    pub token: String,
    pub chat_id: String,
}

/// Builds the bot channel's settings: both the token and the chat id are
/// required, and the token is looked at first.
pub fn bot_config(token: Option<String>, chat_id: Option<String>) -> (r: Result<
    BotConfig,
    ConfigError,
>)
    ensures
        token is None ==> r == Err::<BotConfig, ConfigError>(ConfigError::MissingBotToken),
        token is Some && chat_id is None ==> r == Err::<BotConfig, ConfigError>(
            ConfigError::MissingChatId,
        ),
        token is Some && chat_id is Some ==> (r matches Ok(c) && c.token == token.unwrap()
            && c.chat_id == chat_id.unwrap()),
{
    match token {
        None => Err(ConfigError::MissingBotToken),
        Some(token) => match chat_id {
            None => Err(ConfigError::MissingChatId),
            Some(chat_id) => Ok(BotConfig { token, chat_id }),
        },
    }
}

/// The text announcing release `version`: a fixed line and the release's
/// page, whose address ends with the version.
pub open spec fn release_message(version: Seq<char>) -> Seq<char> {
    "New version of Nearcore just came out!\n\nhttps://github.com/near/nearcore/releases/tag/"@
        + version
}

/// The bot API's address for sending a message with bot `token`.
pub open spec fn send_message_url(token: Seq<char>) -> Seq<char> {
    "https://api.telegram.org/bot"@ + token + "/sendMessage"@
}

/// A message for the bot channel, ready to be posted as the JSON object
/// `{"chat_id": chat_id, "text": text}` to `url`.
pub struct BotMessage {
    pub url: String,
    pub chat_id: String,
    pub text: String,
}

/// The text announcing release `version`.
pub fn release_note(version: &str) -> (r: String)
    ensures
        r@ == release_message(version@),
{
    String::from_str(
        "New version of Nearcore just came out!\n\nhttps://github.com/near/nearcore/releases/tag/",
    ).concat(version)
}

/// The message that announces release `version` through the bot channel.
pub fn bot_message(config: &BotConfig, version: &str) -> (m: BotMessage)
    ensures
        m.url@ == send_message_url(config.token@),
        m.chat_id == config.chat_id,
        m.text@ == release_message(version@),
{
    let url = String::from_str("https://api.telegram.org/bot").concat(config.token.as_str()).concat(
        "/sendMessage",
    );
    BotMessage { url, chat_id: config.chat_id.clone(), text: release_note(version) }
}

} // verus!
