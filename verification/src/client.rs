//! The Discord REST client: which requests posting a message takes, and how
//! failures read. Sending the requests is left to the caller.
use std::sync::Arc;
use vstd::prelude::*;
use vstd::string::*;

use crate::channel_map::ChannelMap;
use crate::split::{message_chunks, pieces_view, split_message};

verus! {

pub const DISCORD_API_BASE: &'static str = "https://discord.com/api/v10";

/// The endpoint that posts a message to the channel with ID `channel_id`.
pub open spec fn message_url(channel_id: Seq<char>) -> Seq<char> {
    DISCORD_API_BASE@ + "/channels/"@ + channel_id + "/messages"@
}

/// The `Authorization` header value for a bot token.
pub open spec fn bot_authorization(token: Seq<char>) -> Seq<char> {
    "Bot "@ + token
}

/// One REST call that posts a piece of a message.
pub struct PostRequest {
    pub url: String,
    pub authorization: String,
    /// The text of the piece, sent as the `content` field of the JSON body.
    pub content: String,
}

/// Why posting a message failed.
#[derive(Debug)]
pub enum ClientError {
    UnknownChannel(String),
    Http(String),
    Api { status: u16, body: String },
}

/// HTTP client for the Discord REST API.
#[derive(Clone)]
pub struct DiscordClient {
    bot_token: String,
    channel_map: ChannelMap,
}

/// Whether an HTTP status code reports success (the 2xx range).
pub fn is_success_status(status: u16) -> (ok: bool)
    ensures
        ok == (200 <= status < 300),
{
    200 <= status && status < 300
}

/// What one post came back with.
pub enum PostResponse {
    /// The request could not be completed; the transport's error text.
    TransportError(String),
    /// The server answered with `status`; `body` is the text of the answer,
    /// read when the status is not a success.
    Answered { status: u16, body: String },
}

/// After one post: `None` to go on with the next piece, or the error that ends
/// the posting (a transport failure, or a status outside the 2xx range).
pub fn post_step(response: PostResponse) -> (stop: Option<ClientError>)
    ensures
        response matches PostResponse::TransportError(m) ==> (stop matches Some(
            ClientError::Http(e),
        ) && e@ == m@),
        response matches PostResponse::Answered { status, body } ==> {
            &&& (stop is None <==> 200 <= status < 300)
            &&& !(200 <= status < 300) ==> (stop matches Some(
                ClientError::Api { status: st, body: b },
            ) && st == status && b@ == body@)
        },
{
    match response {
        PostResponse::TransportError(m) => Some(ClientError::Http(m)),
        PostResponse::Answered { status, body } => {
            if is_success_status(status) {
                None
            } else {
                Some(ClientError::Api { status, body })
            }
        },
    }
}

/// The decimal digit `d` as a character.
pub open spec fn digit_char(d: nat) -> char {
    (('0' as u32) + d) as char
}

/// The decimal notation of `n`, without leading zeros.
pub open spec fn decimal(n: nat) -> Seq<char>
    decreases n,
{
    if n < 10 {
        seq![digit_char(n)]
    } else {
        decimal(n / 10).push(digit_char(n % 10))
    }
}

fn digit_str(d: u16) -> (s: &'static str)
    requires
        d < 10,
    ensures
        s@ == seq![digit_char(d as nat)],
{
    proof {
        reveal_strlit("0");
        reveal_strlit("1");
        reveal_strlit("2");
        reveal_strlit("3");
        reveal_strlit("4");
        reveal_strlit("5");
        reveal_strlit("6");
        reveal_strlit("7");
        reveal_strlit("8");
        reveal_strlit("9");
    }
    match d {
        0 => "0",
        1 => "1",
        2 => "2",
        3 => "3",
        4 => "4",
        5 => "5",
        6 => "6",
        7 => "7",
        8 => "8",
        _ => "9",
    }
}

/// Appends the decimal notation of `n` to `s`.
fn append_decimal(s: &mut String, n: u16)
    ensures
        final(s)@ == old(s)@ + decimal(n as nat),
    decreases n,
{
    if n >= 10 {
        append_decimal(s, n / 10);
    }
    s.append(digit_str(n % 10));
    proof {
        if n >= 10 {
            assert(decimal(n as nat) == decimal((n / 10) as nat).push(digit_char((n % 10) as nat)));
        }
    }
}

/// The decimal notation of `n`.
pub fn u16_to_decimal(n: u16) -> (s: String)
    ensures
        s@ == decimal(n as nat),
{
    let mut s = String::new();
    append_decimal(&mut s, n);
    assert(s@ =~= decimal(n as nat));
    s
}

impl ClientError {
    /// The text that describes the error.
    pub open spec fn spec_message(&self) -> Seq<char> {
        match self {
            ClientError::UnknownChannel(name) => "Unknown channel: "@ + name@,
            ClientError::Http(msg) => "HTTP error: "@ + msg@,
            ClientError::Api { status, body } => "Discord API error "@ + decimal(*status as nat)
                + ": "@ + body@,
        }
    }

    /// The text that describes the error.
    pub fn to_message(&self) -> (text: String)
        ensures
            text@ == self.spec_message(),
    {
        match self {
            ClientError::UnknownChannel(name) => {
                let mut t = "Unknown channel: ".to_owned();
                t.append(name.as_str());
                t
            },
            ClientError::Http(msg) => {
                let mut t = "HTTP error: ".to_owned();
                t.append(msg.as_str());
                t
            },
            ClientError::Api { status, body } => {
                let mut t = "Discord API error ".to_owned();
                let digits = u16_to_decimal(*status);
                t.append(digits.as_str());
                t.append(": ");
                t.append(body.as_str());
                t
            },
        }
    }
}

/// The requests are the message's pieces, in order, each posted to the
/// channel with ID `channel_id` with the bot's credentials.
pub open spec fn posts_pieces(
    requests: Seq<PostRequest>,
    token: Seq<char>,
    channel_id: Seq<char>,
    content: Seq<char>,
) -> bool {
    &&& requests.len() == message_chunks(content).len()
    &&& forall|i: int|
        0 <= i < requests.len() ==> {
            &&& (#[trigger] requests[i]).url@ == message_url(channel_id)
            &&& requests[i].authorization@ == bot_authorization(token)
            &&& requests[i].content@ == message_chunks(content)[i]
        }
}

impl DiscordClient {
    /// The bot token.
    pub closed spec fn token(&self) -> Seq<char> {
        self.bot_token@
    }

    /// The channel names and IDs that the client knows.
    pub closed spec fn channels(&self) -> ChannelMap {
        self.channel_map
    }

    pub fn new(bot_token: String, channel_map: ChannelMap) -> (client: Arc<Self>)
        ensures
            client.token() == bot_token@,
            client.channels() == channel_map,
    {
        Arc::new(DiscordClient { bot_token, channel_map })
    }

    /// Resolve a channel name to its ID.
    pub fn resolve_channel(&self, name: &str) -> (id: Option<&str>)
        ensures
            id is Some <==> self.channels()@.contains_key(name@),
            id matches Some(v) ==> v@ == self.channels()@[name@],
    {
        self.channel_map.get(name)
    }

    /// List available channel names.
    pub fn channel_names(&self) -> (names: Vec<&str>)
        ensures
            names@.map_values(|n: &str| n@) == self.channels().entries().map_values(
                |e: (Seq<char>, Seq<char>)| e.0,
            ),
            names@.map_values(|n: &str| n@).no_duplicates(),
            names@.map_values(|n: &str| n@).to_set() == self.channels()@.dom(),
    {
        self.channel_map.names()
    }

    /// The requests that post `content` to the channel with ID `channel_id`:
    /// one per piece, as `split_message` cuts it.
    pub fn requests_by_id(&self, channel_id: &str, content: &str) -> (requests: Vec<PostRequest>)
        ensures
            posts_pieces(requests@, self.token(), channel_id@, content@),
    {
        let chunks = split_message(content);
        let mut requests: Vec<PostRequest> = Vec::new();
        let mut i: usize = 0;
        while i < chunks.len()
            invariant
                0 <= i <= chunks@.len(),
                pieces_view(chunks@) == message_chunks(content@),
                requests@.len() == i,
                forall|j: int|
                    0 <= j < i ==> {
                        &&& (#[trigger] requests@[j]).url@ == message_url(channel_id@)
                        &&& requests@[j].authorization@ == bot_authorization(self.token())
                        &&& requests@[j].content@ == message_chunks(content@)[j]
                    },
            decreases chunks@.len() - i,
        {
            let mut url = DISCORD_API_BASE.to_owned();
            url.append("/channels/");
            url.append(channel_id);
            url.append("/messages");
            let mut authorization = "Bot ".to_owned();
            authorization.append(self.bot_token.as_str());
            let piece: &str = chunks[i];
            assert(pieces_view(chunks@)[i as int] == piece@);
            requests.push(PostRequest { url, authorization, content: piece.to_owned() });
            i += 1;
        }
        requests
    }

    /// The requests that post `content` to the channel named `channel_name`, or
    /// `UnknownChannel` when no channel has that name.
    pub fn requests_by_name(&self, channel_name: &str, content: &str) -> (res: Result<
        Vec<PostRequest>,
        ClientError,
    >)
        ensures
            res is Err <==> !self.channels()@.contains_key(channel_name@),
            res matches Err(e) ==> e matches ClientError::UnknownChannel(n) && n@ == channel_name@,
            res matches Ok(requests) ==> posts_pieces(
                requests@,
                self.token(),
                self.channels()@[channel_name@],
                content@,
            ),
    {
        match self.channel_map.get(channel_name) {
            Some(id) => Ok(self.requests_by_id(id, content)),
            None => Err(ClientError::UnknownChannel(channel_name.to_owned())),
        }
    }
}

} // verus!
