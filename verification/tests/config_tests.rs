use discord_echo::channel_map::ChannelMap;
use discord_echo::config::{default_chat_channel, default_chat_endpoint, Config};

fn test_config() -> Config {
    let mut channels = ChannelMap::new();
    channels.insert("constellation".to_string(), "111".to_string());
    channels.insert("notes".to_string(), "222".to_string());
    Config {
        bot_token: "test-token".to_string(),
        guild_id: "123".to_string(),
        listen_channels: vec!["constellation".to_string()],
        allowed_user_ids: vec![],
        chat_endpoint: default_chat_endpoint(),
        chat_secret: None,
        chat_channel_name: "discord".to_string(),
        channels,
    }
}

#[test]
fn test_channel_id_lookup() {
    let config = test_config();
    assert_eq!(config.channel_id("constellation"), Some("111"));
    assert_eq!(config.channel_id("unknown"), None);
}

#[test]
fn test_channel_name_lookup() {
    let config = test_config();
    assert_eq!(config.channel_name("111"), Some("constellation"));
    assert_eq!(config.channel_name("999"), None);
}

#[test]
fn test_is_listen_channel() {
    let config = test_config();
    assert!(config.is_listen_channel("111")); // constellation
    assert!(!config.is_listen_channel("222")); // notes not in listen list
    assert!(!config.is_listen_channel("999")); // unknown
}

#[test]
fn test_empty_listen_allows_all() {
    let mut config = test_config();
    config.listen_channels.clear();
    assert!(config.is_listen_channel("111"));
    assert!(config.is_listen_channel("222"));
}

#[test]
fn test_allowed_users_empty_allows_all() {
    let config = test_config();
    assert!(config.is_allowed_user("anyone"));
}

#[test]
fn test_allowed_users_filter() {
    let mut config = test_config();
    config.allowed_user_ids = vec!["user1".to_string()];
    assert!(config.is_allowed_user("user1"));
    assert!(!config.is_allowed_user("user2"));
}

#[test]
fn defaults() {
    assert_eq!(default_chat_endpoint(), "http://127.0.0.1:3100/chat");
    assert_eq!(default_chat_channel(), "discord");
}

#[test]
fn empty_listen_allows_unknown_channels() {
    let mut config = test_config();
    config.listen_channels.clear();
    assert!(config.is_listen_channel("999"));
}

#[test]
fn reverse_lookup_agrees_with_forward_lookup() {
    let config = test_config();
    let name = config.channel_name("222").unwrap();
    assert_eq!(config.channel_id(name), Some("222"));
}

#[test]
fn reverse_lookup_takes_first_name_for_shared_id() {
    let mut config = test_config();
    config.channels.insert("alias".to_string(), "111".to_string());
    assert_eq!(config.channel_name("111"), Some("constellation"));
}

#[test]
fn insert_replaces_and_reads_back() {
    let mut map = ChannelMap::new();
    assert_eq!(map.insert("a".to_string(), "1".to_string()), None);
    assert_eq!(map.insert("b".to_string(), "2".to_string()), None);
    assert_eq!(map.insert("a".to_string(), "3".to_string()), Some("1".to_string()));
    assert_eq!(map.len(), 2);
    assert_eq!(map.get("a"), Some("3"));
    assert_eq!(map.get("b"), Some("2"));
    assert_eq!(map.names(), vec!["a", "b"]);
    assert_eq!(map.name_for("1"), None);
    let copy = map.clone();
    assert_eq!(copy.get("a"), Some("3"));
    assert_eq!(copy.names(), vec!["a", "b"]);
}
