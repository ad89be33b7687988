use discord_echo::channel_map::ChannelMap;
use discord_echo::config::Config;
use discord_echo::echo::{chat_request, decide_reply, is_silent, ChatReply, DiscordEcho, HealthStatus, ReplyDecision};
use discord_echo::types::IncomingMessage;

fn config_with(channels: ChannelMap) -> Config {
    Config {
        bot_token: "test".to_string(),
        guild_id: "123".to_string(),
        listen_channels: vec![],
        allowed_user_ids: vec![],
        chat_endpoint: "http://localhost:3100/chat".to_string(),
        chat_secret: None,
        chat_channel_name: "discord".to_string(),
        channels,
    }
}

#[test]
fn test_health_down_before_start() {
    let echo = DiscordEcho::new(config_with(ChannelMap::new()));
    let health = echo.health_check();
    assert!(matches!(health, HealthStatus::Down(_)));
}

#[test]
fn test_setup_prompts_not_empty() {
    let _echo = DiscordEcho::new(config_with(ChannelMap::new()));
    let prompts = DiscordEcho::get_setup_prompts();
    assert!(!prompts.is_empty());
    assert!(prompts.iter().any(|p| p.key == "bot_token"));
    assert!(prompts.iter().any(|p| p.key == "guild_id"));
}

#[test]
fn test_is_silent() {
    assert!(is_silent("[SILENT]"));
    assert!(is_silent("[SILENT] I have nothing to add"));
    assert!(is_silent("[NO_RESPONSE]"));
    assert!(is_silent("No response requested"));
    assert!(is_silent("No response requested."));
    assert!(is_silent("  [SILENT]  ")); // trimmed
    assert!(!is_silent("Hello, how are you?"));
    assert!(!is_silent(""));
    assert!(!is_silent("I think [SILENT] is interesting")); // not at start
}

#[test]
fn test_client_reference() {
    let mut channels = ChannelMap::new();
    channels.insert("test".to_string(), "456".to_string());
    let echo = DiscordEcho::new(config_with(channels));
    let client = echo.client();
    assert_eq!(client.resolve_channel("test"), Some("456"));
}

#[test]
fn silent_markers_after_unicode_white_space() {
    assert!(is_silent("\t\n\u{3000}[NO_RESPONSE] later"));
    assert!(!is_silent("[silent]"));
    assert!(!is_silent("   "));
    assert!(!is_silent("[SILENT"));
}

#[test]
fn start_stop_and_health() {
    let mut echo = DiscordEcho::new(config_with(ChannelMap::new()));
    match echo.health_check() {
        HealthStatus::Down(m) => assert_eq!(m, "Not started"),
        HealthStatus::Healthy => panic!("healthy before start"),
    }
    assert!(echo.start().is_ok());
    assert!(matches!(echo.health_check(), HealthStatus::Healthy));
    assert_eq!(echo.start(), Err("Already running".to_string()));
    echo.stop();
    assert!(matches!(echo.health_check(), HealthStatus::Down(_)));
    assert!(echo.start().is_ok());
    assert!(echo.running());
}

#[test]
fn setup_prompts_in_full() {
    let prompts = DiscordEcho::get_setup_prompts();
    assert_eq!(prompts.len(), 2);
    assert_eq!(prompts[0].question, "Discord bot token:");
    assert!(prompts[0].secret && prompts[0].required && prompts[0].default.is_none());
    assert_eq!(prompts[1].question, "Discord server (guild) ID:");
    assert!(!prompts[1].secret && prompts[1].required);
}

#[test]
fn chat_request_fields() {
    let mut config = config_with(ChannelMap::new());
    config.chat_secret = Some("s3".to_string());
    let msg = IncomingMessage {
        channel_id: "111".to_string(),
        channel_name: None,
        author_id: "42".to_string(),
        author_name: "alice".to_string(),
        content: "hi there".to_string(),
    };
    let req = chat_request(&config, &msg);
    assert_eq!(req.endpoint, "http://localhost:3100/chat");
    assert_eq!(req.message, "hi there");
    assert_eq!(req.channel, "discord");
    assert_eq!(req.sender, "alice");
    assert_eq!(req.secret, Some("s3".to_string()));
}

#[test]
fn reply_decisions() {
    let post = decide_reply(&ChatReply { response: Some("Hello".to_string()), text: Some("x".to_string()) });
    assert!(matches!(post, ReplyDecision::Post(ref t) if t == "Hello"));
    let from_text = decide_reply(&ChatReply { response: None, text: Some("fallback".to_string()) });
    assert!(matches!(from_text, ReplyDecision::Post(ref t) if t == "fallback"));
    let silent = decide_reply(&ChatReply { response: Some(" [SILENT] ok".to_string()), text: None });
    assert!(matches!(silent, ReplyDecision::Silent));
    let nothing = decide_reply(&ChatReply { response: None, text: None });
    assert!(matches!(nothing, ReplyDecision::Nothing));
    let empty = decide_reply(&ChatReply { response: Some(String::new()), text: Some("unused".to_string()) });
    assert!(matches!(empty, ReplyDecision::Nothing));
}

#[test]
fn surrounding_white_space_and_marker_prefixes() {
    for s in ["[SILENT]", "hello", "No response requested", "[NO_RESPONSE]x", ""] {
        let padded = format!(" \t{}\u{2003}\n", s);
        assert_eq!(is_silent(&padded), is_silent(s));
    }
    for m in ["[SILENT]", "[NO_RESPONSE]", "No response requested"] {
        assert!(is_silent(&format!("{}{}", m, " anything at all")));
        assert!(is_silent(&format!("{}{}", m, "   ")));
    }
}
