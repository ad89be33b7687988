//! Discord gateway protocol constants and the values that travel over the gateway.
use vstd::prelude::*;

verus! {

// Gateway opcodes
pub const OP_DISPATCH: u8 = 0;

pub const OP_HEARTBEAT: u8 = 1;

pub const OP_IDENTIFY: u8 = 2;

pub const OP_RESUME: u8 = 6;

pub const OP_RECONNECT: u8 = 7;

pub const OP_INVALID_SESSION: u8 = 9;

pub const OP_HELLO: u8 = 10;

pub const OP_HEARTBEAT_ACK: u8 = 11;

// Gateway intents
pub const INTENT_GUILD_MESSAGES: u64 = 512;

pub const INTENT_MESSAGE_CONTENT: u64 = 32768;

pub const GATEWAY_URL: &'static str = "wss://gateway.discord.gg/?v=10&encoding=json";

/// Message author info.
#[derive(Debug)]
pub struct MessageAuthor {
    pub id: String,
    pub username: String,
    pub bot: bool,
}

/// Data from a MESSAGE_CREATE event.
#[derive(Debug)]
pub struct MessageCreateData {
    pub id: String,
    pub channel_id: String,
    pub content: String,
    pub author: MessageAuthor,
}

/// Data from the READY event.
#[derive(Debug)]
pub struct ReadyData {
    pub session_id: String,
    pub resume_gateway_url: String,
    /// The bot's own user.
    pub user: MessageAuthor,
}

/// What an inbound event's `d` field holds, as far as the gateway reads it.
#[derive(Debug)]
pub struct EventData {
    /// `d.heartbeat_interval`, when it is an unsigned integer.
    pub heartbeat_interval: Option<u64>,
    /// `d` itself, when it is a boolean.
    pub resumable: Option<bool>,
    /// `d` read as READY data, when it has that shape.
    pub ready: Option<ReadyData>,
    /// `d` read as MESSAGE_CREATE data, when it has that shape.
    pub message: Option<MessageCreateData>,
}

/// Inbound gateway event.
#[derive(Debug)]
pub struct GatewayEvent {
    pub op: u8,
    pub t: Option<String>,
    pub s: Option<u64>,
    pub d: EventData,
}

/// A received Discord message ready for forwarding.
pub struct IncomingMessage {
    pub channel_id: String,
    pub channel_name: Option<String>,
    pub author_id: String,
    pub author_name: String,
    pub content: String,
}

/// The characters of a received message.
pub struct IncomingView {
    pub channel_id: Seq<char>,
    pub channel_name: Option<Seq<char>>,
    pub author_id: Seq<char>,
    pub author_name: Seq<char>,
    pub content: Seq<char>,
}

/// The view of an optional string.
pub open spec fn opt_view(s: Option<String>) -> Option<Seq<char>> {
    match s {
        Some(v) => Some(v@),
        None => None,
    }
}

impl View for IncomingMessage {
    type V = IncomingView;

    open spec fn view(&self) -> IncomingView {
        IncomingView {
            channel_id: self.channel_id@,
            channel_name: opt_view(self.channel_name),
            author_id: self.author_id@,
            author_name: self.author_name@,
            content: self.content@,
        }
    }
}

/// The `d` field of an outbound gateway payload.
#[derive(Debug)]
pub enum PayloadData {
    /// A heartbeat carries the last sequence number seen.
    Heartbeat { seq: u64 },
    /// Starts a new session.
    Identify { token: String, intents: u64, os: String, browser: String, device: String },
    /// Resumes an earlier session.
    Resume { token: String, session_id: String, seq: u64 },
}

/// Outbound gateway payload.
#[derive(Debug)]
pub struct GatewayPayload {
    pub op: u8,
    pub d: PayloadData,
}

/// The characters and numbers of an outbound payload's `d` field.
pub enum PayloadDataView {
    Heartbeat { seq: u64 },
    Identify {
        token: Seq<char>,
        intents: u64,
        os: Seq<char>,
        browser: Seq<char>,
        device: Seq<char>,
    },
    Resume { token: Seq<char>, session_id: Seq<char>, seq: u64 },
}

/// The view of an outbound payload.
pub struct PayloadView {
    pub op: u8,
    pub d: PayloadDataView,
}

impl View for GatewayPayload {
    type V = PayloadView;

    open spec fn view(&self) -> PayloadView {
        PayloadView {
            op: self.op,
            d: match &self.d {
                PayloadData::Heartbeat { seq } => PayloadDataView::Heartbeat { seq: *seq },
                PayloadData::Identify { token, intents, os, browser, device } => {
                    PayloadDataView::Identify {
                        token: token@,
                        intents: *intents,
                        os: os@,
                        browser: browser@,
                        device: device@,
                    }
                },
                PayloadData::Resume { token, session_id, seq } => PayloadDataView::Resume {
                    token: token@,
                    session_id: session_id@,
                    seq: *seq,
                },
            },
        }
    }
}

} // verus!
