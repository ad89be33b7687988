use discord_echo::channel_map::ChannelMap;
use discord_echo::config::Config;
use discord_echo::gateway::{hello_interval, ConnectionEnd, GatewayAction, GatewaySession};
use discord_echo::types::{
    EventData, GatewayEvent, MessageAuthor, MessageCreateData, PayloadData, ReadyData,
    GATEWAY_URL, OP_DISPATCH, OP_HEARTBEAT, OP_HEARTBEAT_ACK, OP_HELLO, OP_IDENTIFY,
    OP_INVALID_SESSION, OP_RECONNECT, OP_RESUME,
};

fn no_data() -> EventData {
    EventData { heartbeat_interval: None, resumable: None, ready: None, message: None }
}

fn event(op: u8, t: Option<&str>, s: Option<u64>, d: EventData) -> GatewayEvent {
    GatewayEvent { op, t: t.map(|x| x.to_string()), s, d }
}

fn author(id: &str, name: &str) -> MessageAuthor {
    MessageAuthor { id: id.to_string(), username: name.to_string(), bot: false }
}

fn ready_event(seq: u64) -> GatewayEvent {
    let mut d = no_data();
    d.ready = Some(ReadyData {
        session_id: "sess-1".to_string(),
        resume_gateway_url: "wss://resume.example".to_string(),
        user: author("bot-id", "echo"),
    });
    event(OP_DISPATCH, Some("READY"), Some(seq), d)
}

fn message_event(channel: &str, author_id: &str, content: &str) -> GatewayEvent {
    let mut d = no_data();
    d.message = Some(MessageCreateData {
        id: "m1".to_string(),
        channel_id: channel.to_string(),
        content: content.to_string(),
        author: author(author_id, "someone"),
    });
    event(OP_DISPATCH, Some("MESSAGE_CREATE"), Some(7), d)
}

fn config() -> Config {
    let mut channels = ChannelMap::new();
    channels.insert("constellation".to_string(), "111".to_string());
    channels.insert("notes".to_string(), "222".to_string());
    Config {
        bot_token: "tok".to_string(),
        guild_id: "1".to_string(),
        listen_channels: vec!["constellation".to_string()],
        allowed_user_ids: vec![],
        chat_endpoint: "http://x".to_string(),
        chat_secret: None,
        chat_channel_name: "discord".to_string(),
        channels,
    }
}

#[test]
fn backoff_doubles_to_thirty_and_resets() {
    let mut s = GatewaySession::new();
    let delays: Vec<u64> = (0..8).map(|_| s.take_backoff()).collect();
    assert_eq!(delays, vec![1, 2, 4, 8, 16, 30, 30, 30]);
    s.connected();
    assert_eq!(s.backoff_secs(), 1);
}

#[test]
fn hello_interval_default_and_other_events() {
    let mut d = no_data();
    d.heartbeat_interval = Some(45000);
    assert_eq!(hello_interval(&event(OP_HELLO, None, None, d)), Some(45000));
    assert_eq!(hello_interval(&event(OP_HELLO, None, None, no_data())), Some(41250));
    assert_eq!(hello_interval(&event(OP_DISPATCH, None, None, no_data())), None);
}

#[test]
fn fresh_session_identifies_at_default_gateway() {
    let s = GatewaySession::new();
    assert_eq!(s.connect_url(), GATEWAY_URL);
    let p = s.auth_payload("tok");
    assert_eq!(p.op, OP_IDENTIFY);
    match p.d {
        PayloadData::Identify { token, intents, os, browser, device } => {
            assert_eq!(token, "tok");
            assert_eq!(intents, (1 << 9) | (1 << 15));
            assert_eq!(os, "linux");
            assert_eq!(browser, "discord-echo");
            assert_eq!(device, "discord-echo");
        }
        _ => panic!("expected identify"),
    }
}

#[test]
fn ready_then_resume() {
    let cfg = config();
    let mut s = GatewaySession::new();
    let action = s.handle_event(&cfg, ready_event(3));
    assert!(matches!(action, GatewayAction::Nothing));
    assert_eq!(s.session_id(), Some("sess-1"));
    assert_eq!(s.sequence(), 3);
    assert_eq!(s.connect_url(), "wss://resume.example");
    let p = s.auth_payload("tok");
    assert_eq!(p.op, OP_RESUME);
    match p.d {
        PayloadData::Resume { token, session_id, seq } => {
            assert_eq!(token, "tok");
            assert_eq!(session_id, "sess-1");
            assert_eq!(seq, 3);
        }
        _ => panic!("expected resume"),
    }
}

#[test]
fn messages_are_filtered_and_forwarded() {
    let cfg = config();
    let mut s = GatewaySession::new();
    s.handle_event(&cfg, ready_event(1));
    match s.handle_event(&cfg, message_event("111", "user-1", "hello")) {
        GatewayAction::Forward(m) => {
            assert_eq!(m.channel_id, "111");
            assert_eq!(m.channel_name, Some("constellation".to_string()));
            assert_eq!(m.author_id, "user-1");
            assert_eq!(m.author_name, "someone");
            assert_eq!(m.content, "hello");
        }
        _ => panic!("expected a forwarded message"),
    }
    // own message
    assert!(matches!(s.handle_event(&cfg, message_event("111", "bot-id", "x")), GatewayAction::Nothing));
    // channel not listened to
    assert!(matches!(s.handle_event(&cfg, message_event("222", "user-1", "x")), GatewayAction::Nothing));
    assert_eq!(s.sequence(), 7);
}

#[test]
fn user_filter_applies() {
    let mut cfg = config();
    cfg.allowed_user_ids = vec!["vip".to_string()];
    let mut s = GatewaySession::new();
    assert!(matches!(s.handle_event(&cfg, message_event("111", "user-1", "x")), GatewayAction::Nothing));
    assert!(matches!(s.handle_event(&cfg, message_event("111", "vip", "x")), GatewayAction::Forward(_)));
}

#[test]
fn heartbeat_request_reports_latest_sequence() {
    let cfg = config();
    let mut s = GatewaySession::new();
    match s.handle_event(&cfg, event(OP_HEARTBEAT, None, Some(12), no_data())) {
        GatewayAction::Send(p) => {
            assert_eq!(p.op, OP_HEARTBEAT);
            assert!(matches!(p.d, PayloadData::Heartbeat { seq: 12 }));
        }
        _ => panic!("expected a heartbeat"),
    }
    assert!(matches!(s.handle_event(&cfg, event(OP_HEARTBEAT_ACK, None, None, no_data())), GatewayAction::Nothing));
    assert!(matches!(s.heartbeat_payload().d, PayloadData::Heartbeat { seq: 12 }));
}

#[test]
fn reconnect_and_invalid_session() {
    let cfg = config();
    let mut s = GatewaySession::new();
    s.handle_event(&cfg, ready_event(5));
    assert!(matches!(s.handle_event(&cfg, event(OP_RECONNECT, None, None, no_data())), GatewayAction::Reconnect { delay_secs: 0 }));
    assert_eq!(s.session_id(), Some("sess-1"));

    let mut resumable = no_data();
    resumable.resumable = Some(true);
    assert!(matches!(s.handle_event(&cfg, event(OP_INVALID_SESSION, None, None, resumable)), GatewayAction::Reconnect { delay_secs: 5 }));
    assert_eq!(s.session_id(), Some("sess-1"));
    assert_eq!(s.sequence(), 5);

    assert!(matches!(s.handle_event(&cfg, event(OP_INVALID_SESSION, None, None, no_data())), GatewayAction::Reconnect { delay_secs: 5 }));
    assert_eq!(s.session_id(), None);
    assert_eq!(s.sequence(), 0);
    assert_eq!(s.connect_url(), GATEWAY_URL);
    assert_eq!(s.auth_payload("tok").op, OP_IDENTIFY);
}

#[test]
fn connection_endings_decide_the_wait() {
    let mut s = GatewaySession::new();
    assert_eq!(s.connection_ended(ConnectionEnd::ConnectFailed), 1);
    assert_eq!(s.connection_ended(ConnectionEnd::Lost), 2);
    assert_eq!(s.connection_ended(ConnectionEnd::NoHello), 4);
    assert_eq!(s.connection_ended(ConnectionEnd::AuthNotSent), 8);
    assert_eq!(s.connection_ended(ConnectionEnd::Requested), 0);
    assert_eq!(s.backoff_secs(), 16);
    assert_eq!(s.connection_ended(ConnectionEnd::Lost), 16);
    assert_eq!(s.connection_ended(ConnectionEnd::NoHello), 30);
    s.connected();
    assert_eq!(s.connection_ended(ConnectionEnd::Lost), 1);
}

#[test]
fn message_run_is_forwarded_in_order() {
    let cfg = config();
    let mut s = GatewaySession::new();
    let mut seen = Vec::new();
    for text in ["one", "two", "three"] {
        if let GatewayAction::Forward(m) = s.handle_event(&cfg, message_event("111", "user", text)) {
            seen.push(m.content);
        }
    }
    assert_eq!(seen, vec!["one", "two", "three"]);
}

#[test]
fn created_messages_among_other_frames_are_forwarded_in_order() {
    let cfg = config();
    let mut s = GatewaySession::new();
    let events = vec![
        message_event("111", "user", "first"),
        event(OP_HEARTBEAT, None, Some(8), no_data()),
        event(OP_HEARTBEAT_ACK, None, None, no_data()),
        message_event("111", "user", "second"),
        event(OP_DISPATCH, Some("RESUMED"), Some(9), no_data()),
        message_event("111", "user", "third"),
    ];
    let mut seen = Vec::new();
    for e in events {
        if let GatewayAction::Forward(m) = s.handle_event(&cfg, e) {
            seen.push(m.content);
        }
    }
    assert_eq!(seen, vec!["first", "second", "third"]);
}
