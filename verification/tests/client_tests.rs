use discord_echo::channel_map::ChannelMap;
use discord_echo::client::{is_success_status, post_step, u16_to_decimal, ClientError, DiscordClient, PostResponse};
use discord_echo::split::{split_message, DISCORD_MAX_LEN};

fn channel_map(pairs: &[(&str, &str)]) -> ChannelMap {
    let mut map = ChannelMap::new();
    for (name, id) in pairs {
        map.insert(name.to_string(), id.to_string());
    }
    map
}

#[test]
fn test_split_short_message() {
    let chunks = split_message("hello");
    assert_eq!(chunks, vec!["hello"]);
}

#[test]
fn test_split_at_newline() {
    let mut msg = String::new();
    // Build a message with lines that push past 2000 chars
    for i in 0..30 {
        msg.push_str(&format!("Line {} with some content here\n", i));
    }
    // Ensure it's over 2000
    while msg.len() <= DISCORD_MAX_LEN {
        msg.push_str("padding line\n");
    }
    let chunks = split_message(&msg);
    assert!(chunks.len() >= 2);
    // First chunk should end at a newline
    assert!(chunks[0].ends_with('\n'));
    assert!(chunks[0].len() <= DISCORD_MAX_LEN);
}

#[test]
fn test_split_no_newlines() {
    let msg = "x".repeat(DISCORD_MAX_LEN + 500);
    let chunks = split_message(&msg);
    assert_eq!(chunks.len(), 2);
    assert_eq!(chunks[0].len(), DISCORD_MAX_LEN);
    assert_eq!(chunks[1].len(), 500);
}

#[test]
fn test_split_exact_boundary() {
    let msg = "x".repeat(DISCORD_MAX_LEN);
    let chunks = split_message(&msg);
    assert_eq!(chunks.len(), 1);
}

#[test]
fn test_resolve_channel() {
    let client = DiscordClient::new("token".to_string(), channel_map(&[("test", "123")]));
    assert_eq!(client.resolve_channel("test"), Some("123"));
    assert_eq!(client.resolve_channel("nope"), None);
}

#[test]
fn split_empty_message_is_one_empty_piece() {
    assert_eq!(split_message(""), vec![""]);
}

#[test]
fn split_cuts_just_after_last_newline_within_limit() {
    // newline at byte 10 and at byte 1999; nothing after within the limit
    let mut msg = String::new();
    msg.push_str(&"a".repeat(10));
    msg.push('\n');
    msg.push_str(&"b".repeat(1988));
    msg.push('\n');
    msg.push_str(&"c".repeat(700));
    let chunks = split_message(&msg);
    assert_eq!(chunks.len(), 2);
    assert_eq!(chunks[0].len(), 2000);
    assert!(chunks[0].ends_with('\n'));
    assert_eq!(chunks[1], "c".repeat(700));
}

#[test]
fn split_newline_past_limit_is_ignored() {
    // the only newline is at byte 2000, outside the first 2000 bytes
    let mut msg = "y".repeat(2000);
    msg.push('\n');
    msg.push_str("tail");
    let chunks = split_message(&msg);
    assert_eq!(chunks, vec!["y".repeat(2000).as_str(), "\ntail"]);
}

#[test]
fn split_pieces_rejoin_and_fit() {
    let mut msg = String::new();
    for i in 0..400 {
        msg.push_str(&format!("row {} ", i));
        if i % 37 == 0 {
            msg.push('\n');
        }
    }
    let chunks = split_message(&msg);
    assert_eq!(chunks.concat(), msg);
    for (i, c) in chunks.iter().enumerate() {
        assert!(c.len() <= DISCORD_MAX_LEN && !c.is_empty());
        if i + 1 < chunks.len() {
            assert!(c.ends_with('\n') || (c.len() == DISCORD_MAX_LEN && !c.contains('\n')));
        }
    }
}

#[test]
fn split_three_pieces_without_newlines() {
    let msg = "z".repeat(4001);
    let chunks = split_message(&msg);
    assert_eq!(chunks.iter().map(|c| c.len()).collect::<Vec<_>>(), vec![2000, 2000, 1]);
}

#[test]
fn limit_counts_characters_not_bytes() {
    // 1001 two-byte characters: 2002 bytes, but within the character limit
    let short = "é".repeat(1001);
    assert_eq!(split_message(&short), vec![short.as_str()]);
    // 2001 two-byte characters: cut after 2000 characters
    let long = "é".repeat(2001);
    let chunks = split_message(&long);
    assert_eq!(chunks.len(), 2);
    assert_eq!(chunks[0].chars().count(), 2000);
    assert_eq!(chunks[1], "é");
    assert_eq!(chunks.concat(), long);
    // a newline after multi-byte text is found by character position
    let mut mixed = "ü".repeat(1500);
    mixed.push('\n');
    mixed.push_str(&"ß".repeat(800));
    let chunks = split_message(&mixed);
    assert_eq!(chunks.len(), 2);
    assert_eq!(chunks[0].chars().count(), 1501);
    assert!(chunks[0].ends_with('\n'));
    assert_eq!(chunks[1], "ß".repeat(800));
}

#[test]
fn requests_carry_url_authorization_and_pieces() {
    let client = DiscordClient::new("secret-token".to_string(), channel_map(&[("notes", "222")]));
    let text = "q".repeat(2100);
    let requests = client.requests_by_id("222", &text);
    assert_eq!(requests.len(), 2);
    for r in &requests {
        assert_eq!(r.url, "https://discord.com/api/v10/channels/222/messages");
        assert_eq!(r.authorization, "Bot secret-token");
    }
    assert_eq!(requests[0].content.len(), 2000);
    assert_eq!(requests[1].content.len(), 100);

    let by_name = client.requests_by_name("notes", "hi").ok().unwrap();
    assert_eq!(by_name.len(), 1);
    assert_eq!(by_name[0].content, "hi");
    match client.requests_by_name("missing", "hi") {
        Err(ClientError::UnknownChannel(n)) => assert_eq!(n, "missing"),
        _ => panic!("expected an unknown channel"),
    }
}

#[test]
fn channel_names_in_insertion_order() {
    let client = DiscordClient::new(
        "t".to_string(),
        channel_map(&[("constellation", "111"), ("notes", "222")]),
    );
    let names = client.channel_names();
    assert_eq!(names, vec!["constellation", "notes"]);
    let mut again = channel_map(&[("a", "1"), ("b", "2")]);
    again.insert("a".to_string(), "3".to_string());
    assert_eq!(again.names(), vec!["a", "b"]);
}

#[test]
fn client_error_messages() {
    assert_eq!(ClientError::UnknownChannel("x".to_string()).to_message(), "Unknown channel: x");
    assert_eq!(ClientError::Http("timeout".to_string()).to_message(), "HTTP error: timeout");
    assert_eq!(
        ClientError::Api { status: 403, body: "Missing Access".to_string() }.to_message(),
        "Discord API error 403: Missing Access"
    );
}

#[test]
fn decimal_rendering() {
    assert_eq!(u16_to_decimal(0), "0");
    assert_eq!(u16_to_decimal(7), "7");
    assert_eq!(u16_to_decimal(10), "10");
    assert_eq!(u16_to_decimal(429), "429");
    assert_eq!(u16_to_decimal(65535), "65535");
}

#[test]
fn success_statuses_are_2xx() {
    assert!(is_success_status(200));
    assert!(is_success_status(204));
    assert!(is_success_status(299));
    assert!(!is_success_status(199));
    assert!(!is_success_status(300));
    assert!(!is_success_status(404));
}

#[test]
fn post_steps() {
    assert!(post_step(PostResponse::Answered { status: 200, body: String::new() }).is_none());
    assert!(post_step(PostResponse::Answered { status: 204, body: String::new() }).is_none());
    match post_step(PostResponse::Answered { status: 429, body: "slow down".to_string() }) {
        Some(ClientError::Api { status, body }) => {
            assert_eq!(status, 429);
            assert_eq!(body, "slow down");
        }
        _ => panic!("expected an API error"),
    }
    match post_step(PostResponse::TransportError("connection refused".to_string())) {
        Some(ClientError::Http(m)) => assert_eq!(m, "connection refused"),
        _ => panic!("expected an HTTP error"),
    }
}
