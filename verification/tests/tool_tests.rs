use discord_echo::channel_map::ChannelMap;
use discord_echo::client::{ClientError, DiscordClient};
use discord_echo::tool::{DiscordPostTool, ToolInput};

fn tool() -> DiscordPostTool {
    let mut channels = ChannelMap::new();
    channels.insert("constellation".to_string(), "111".to_string());
    DiscordPostTool::new(DiscordClient::new("tok".to_string(), channels))
}

fn input(channel: Option<&str>, message: Option<&str>) -> ToolInput {
    ToolInput { channel: channel.map(|s| s.to_string()), message: message.map(|s| s.to_string()) }
}

#[test]
fn test_tool_metadata() {
    assert_eq!(DiscordPostTool::name(), "discord_post");
    assert!(!DiscordPostTool::description().is_empty());

    let schema = DiscordPostTool::input_schema();
    assert_eq!(schema.kind, "object");
    let required = &schema.required;
    assert!(required.contains(&"channel".to_string()));
    assert!(required.contains(&"message".to_string()));
}

#[test]
fn input_schema_properties() {
    let schema = DiscordPostTool::input_schema();
    assert_eq!(schema.properties.len(), 2);
    assert_eq!(schema.properties[0].name, "channel");
    assert_eq!(schema.properties[0].kind, "string");
    assert_eq!(schema.properties[0].description, "Channel name (e.g. 'constellation', 'notes')");
    assert_eq!(schema.properties[1].name, "message");
    assert_eq!(schema.properties[1].kind, "string");
    assert_eq!(schema.properties[1].description, "Message content to post");
}

#[test]
fn tool_name_and_description() {
    assert_eq!(DiscordPostTool::name(), "discord_post");
    assert!(!DiscordPostTool::description().is_empty());
}

#[test]
fn input_errors_in_order() {
    assert_eq!(DiscordPostTool::check_input(&input(None, None)), Err("Missing 'channel' parameter".to_string()));
    assert_eq!(DiscordPostTool::check_input(&input(Some("c"), None)), Err("Missing 'message' parameter".to_string()));
    assert_eq!(DiscordPostTool::check_input(&input(Some("c"), Some(""))), Err("Message cannot be empty".to_string()));
    assert_eq!(
        DiscordPostTool::check_input(&input(Some("c"), Some("m"))),
        Ok(("c".to_string(), "m".to_string()))
    );
}

#[test]
fn outcome_texts() {
    assert_eq!(DiscordPostTool::outcome("notes", Ok(())), Ok("Message posted to #notes".to_string()));
    assert_eq!(
        DiscordPostTool::outcome("nope", Err(ClientError::UnknownChannel("nope".to_string()))),
        Err("Failed to post to #nope: Unknown channel: nope".to_string())
    );
    assert_eq!(
        DiscordPostTool::outcome("c", Err(ClientError::Api { status: 500, body: "oops".to_string() })),
        Err("Failed to post to #c: Discord API error 500: oops".to_string())
    );
}

#[test]
fn post_requests_and_available_channels() {
    let t = tool();
    assert_eq!(t.available_channels(), vec!["constellation"]);
    let requests = t.post_requests("constellation", "hello").ok().unwrap();
    assert_eq!(requests.len(), 1);
    assert_eq!(requests[0].url, "https://discord.com/api/v10/channels/111/messages");
    assert!(t.post_requests("missing", "hello").is_err());
}
