//! The plugin itself: its lifecycle and health, its setup questions, and the
//! rules by which messages are forwarded to the chat endpoint and replies are
//! posted back.
use std::sync::Arc;
use vstd::prelude::*;
use vstd::string::*;

use crate::client::DiscordClient;
use crate::config::Config;
use crate::text::{
    all_white_space, chars_of, lemma_prefix_survives_trim, lemma_trim_end_is_prefix,
    lemma_trim_start_drops_white_prefix, lemma_trim_start_skips, lemma_trim_surrounded,
    range_starts_with, starts_with, trim, trim_bounds, trim_end, trim_start,
};
use crate::types::{opt_view, IncomingMessage};

verus! {

/// `Arc::clone`: another handle to the same shared value.
#[verifier::external_body]
fn share<T>(a: &Arc<T>) -> (b: Arc<T>)
    ensures
        b == *a,
{
    Arc::clone(a)
}

/// Whether a response indicates that the entity chose not to respond: after
/// trimming white space it starts with one of the silent markers.
pub open spec fn spec_is_silent(response: Seq<char>) -> bool {
    let t = trim(response);
    ||| starts_with(t, "[SILENT]"@)
    ||| starts_with(t, "[NO_RESPONSE]"@)
    ||| starts_with(t, "No response requested"@)
}

/// Check if a response indicates the entity chose not to respond.
pub fn is_silent(response: &str) -> (silent: bool)
    ensures
        silent == spec_is_silent(response@),
{
    let chars = chars_of(response);
    let (a, b) = trim_bounds(&chars);
    range_starts_with(&chars, a, b, "[SILENT]") || range_starts_with(&chars, a, b, "[NO_RESPONSE]")
        || range_starts_with(&chars, a, b, "No response requested")
}

/// White space around a response never changes whether it is silent.
pub proof fn law_silence_ignores_surrounding_white_space(
    before: Seq<char>,
    response: Seq<char>,
    after: Seq<char>,
)
    requires
        all_white_space(before),
        all_white_space(after),
    ensures
        spec_is_silent(before + response + after) == spec_is_silent(response),
{
    lemma_trim_surrounded(before, response, after);
}

/// A response that begins with a silent marker is silent, whatever follows.
pub proof fn law_marker_prefix_is_silent(rest: Seq<char>)
    ensures
        spec_is_silent("[SILENT]"@ + rest),
        spec_is_silent("[NO_RESPONSE]"@ + rest),
        spec_is_silent("No response requested"@ + rest),
{
    reveal_strlit("[SILENT]");
    reveal_strlit("[NO_RESPONSE]");
    reveal_strlit("No response requested");
    lemma_prefix_survives_trim("[SILENT]"@, rest);
    lemma_prefix_survives_trim("[NO_RESPONSE]"@, rest);
    lemma_prefix_survives_trim("No response requested"@, rest);
}

/// The three silent markers.
pub open spec fn silent_marker(i: int) -> Seq<char> {
    if i == 0 {
        "[SILENT]"@
    } else if i == 1 {
        "[NO_RESPONSE]"@
    } else {
        "No response requested"@
    }
}

/// A response is silent exactly when, after some leading white space, it
/// begins with one of the three markers `[SILENT]`, `[NO_RESPONSE]` and
/// `No response requested`.
pub proof fn law_silent_iff_marker_after_white_space(response: Seq<char>)
    ensures
        spec_is_silent(response) <==> exists|k: int, m: int|
            0 <= k <= response.len() && 0 <= m < 3 && all_white_space(response.subrange(0, k))
                && #[trigger] starts_with(
                response.subrange(k, response.len() as int),
                silent_marker(m),
            ),
{
    let r = response;
    lemma_trim_start_drops_white_prefix(r);
    let k = r.len() - trim_start(r).len();
    let front = trim_start(r);
    lemma_trim_end_is_prefix(front);
    if spec_is_silent(r) {
        let t = trim(r);
        assert(t == trim_end(front));
        let m: int = if starts_with(t, "[SILENT]"@) {
            0
        } else if starts_with(t, "[NO_RESPONSE]"@) {
            1
        } else {
            2
        };
        let mk = silent_marker(m);
        assert(starts_with(t, mk));
        assert(front.subrange(0, mk.len() as int) =~= t.subrange(0, mk.len() as int));
        assert(starts_with(r.subrange(k, r.len() as int), silent_marker(m)));
    }
    if exists|k: int, m: int|
        0 <= k <= r.len() && 0 <= m < 3 && all_white_space(r.subrange(0, k)) && #[trigger] starts_with(
            r.subrange(k, r.len() as int),
            silent_marker(m),
        ) {
        let (k2, m2) = choose|k: int, m: int|
            0 <= k <= r.len() && 0 <= m < 3 && all_white_space(r.subrange(0, k))
                && #[trigger] starts_with(r.subrange(k, r.len() as int), silent_marker(m));
        let mk = silent_marker(m2);
        let w = r.subrange(0, k2);
        let t = r.subrange(k2 + mk.len(), r.len() as int);
        assert(r.subrange(k2, r.len() as int) =~= mk + t);
        assert(r =~= w + (mk + t));
        lemma_trim_start_skips(w, mk + t);
        law_marker_prefix_is_silent(t);
        assert(trim(r) == trim(mk + t));
    }
}

/// The request that forwards a received message to the entity's chat endpoint.
pub struct ChatRequest {
    pub endpoint: String,
    pub message: String,
    pub channel: String,
    pub sender: String,
    /// Sent as the `X-Echo-Secret` header when present.
    pub secret: Option<String>,
}

/// The chat request for a received message.
pub fn chat_request(config: &Config, msg: &IncomingMessage) -> (req: ChatRequest)
    ensures
        req.endpoint@ == config.chat_endpoint@,
        req.message@ == msg.content@,
        req.channel@ == config.chat_channel_name@,
        req.sender@ == msg.author_name@,
        opt_view(req.secret) == opt_view(config.chat_secret),
{
    let secret = match &config.chat_secret {
        Some(s) => Some(s.clone()),
        None => None,
    };
    ChatRequest {
        endpoint: config.chat_endpoint.clone(),
        message: msg.content.clone(),
        channel: config.chat_channel_name.clone(),
        sender: msg.author_name.clone(),
        secret,
    }
}

/// What a successful chat reply's JSON body holds: its `response` and `text`
/// fields, where they are strings.
pub struct ChatReply {
    pub response: Option<String>,
    pub text: Option<String>,
}

/// What to do with a chat reply.
pub enum ReplyDecision {
    /// Post the text back to the channel that the message came from.
    Post(String),
    /// The entity chose to stay quiet.
    Silent,
    /// There is nothing to post.
    Nothing,
}

/// The reply text: `response`, else `text`, else empty.
pub open spec fn reply_text(reply: &ChatReply) -> Seq<char> {
    match reply.response {
        Some(r) => r@,
        None => match reply.text {
            Some(t) => t@,
            None => Seq::empty(),
        },
    }
}

/// The decision for a chat reply.
pub open spec fn decision_for(reply: &ChatReply) -> Option<Seq<char>> {
    let t = reply_text(reply);
    if t.len() > 0 && !spec_is_silent(t) {
        Some(t)
    } else {
        None
    }
}

/// Decides what to do with the entity's reply to a forwarded message: post it
/// unless it is empty or silent.
pub fn decide_reply(reply: &ChatReply) -> (d: ReplyDecision)
    ensures
        d matches ReplyDecision::Post(t) ==> decision_for(reply) == Some(t@),
        d is Post <==> decision_for(reply) is Some,
        d is Silent <==> spec_is_silent(reply_text(reply)),
        d is Nothing <==> reply_text(reply).len() == 0,
{
    let text: &str = match &reply.response {
        Some(r) => r.as_str(),
        None => match &reply.text {
            Some(t) => t.as_str(),
            None => "",
        },
    };
    proof {
        reveal_strlit("");
        assert(text@ =~= reply_text(reply));
        if spec_is_silent(text@) {
            // every silent marker is non-empty, so a silent text is never empty
            reveal_strlit("[SILENT]");
            reveal_strlit("[NO_RESPONSE]");
            reveal_strlit("No response requested");
            lemma_trim_len(text@);
            assert("[SILENT]"@.len() == 8);
            assert("[NO_RESPONSE]"@.len() == 13);
            assert("No response requested"@.len() == 21);
            assert(text@.len() > 0);
        }
        lemma_nonempty_bytes(text);
    }
    let silent = is_silent(text);
    if text.as_bytes().len() != 0 && !silent {
        ReplyDecision::Post(text.to_owned())
    } else if silent {
        ReplyDecision::Silent
    } else {
        ReplyDecision::Nothing
    }
}

/// Trimming never makes a text longer.
proof fn lemma_trim_len(s: Seq<char>)
    ensures
        trim(s).len() <= s.len(),
{
    lemma_trim_start_len(s);
    lemma_trim_end_len(crate::text::trim_start(s));
}

proof fn lemma_trim_start_len(s: Seq<char>)
    ensures
        crate::text::trim_start(s).len() <= s.len(),
    decreases s.len(),
{
    if s.len() > 0 {
        lemma_trim_start_len(s.drop_first());
    }
}

proof fn lemma_trim_end_len(s: Seq<char>)
    ensures
        crate::text::trim_end(s).len() <= s.len(),
    decreases s.len(),
{
    if s.len() > 0 {
        lemma_trim_end_len(s.drop_last());
    }
}

/// A string has bytes exactly when it has characters.
proof fn lemma_nonempty_bytes(s: &str)
    ensures
        (s.spec_bytes().len() == 0) <==> (s@.len() == 0),
{
    vstd::utf8::encode_utf8_decode_utf8(s@);
    if s.spec_bytes().len() == 0 {
        assert(vstd::utf8::decode_utf8(s.spec_bytes()) =~= Seq::<char>::empty());
    }
    if s@.len() == 0 {
        assert(s@ =~= Seq::<char>::empty());
    }
}

/// A reply that is empty or silent is never posted.
pub proof fn law_silent_replies_are_not_posted(reply: &ChatReply)
    ensures
        spec_is_silent(reply_text(reply)) ==> decision_for(reply) is None,
        reply_text(reply).len() == 0 ==> decision_for(reply) is None,
{
}

/// Plugin health.
pub enum HealthStatus {
    Healthy,
    Down(String),
}

/// A question that the setup wizard asks for one configuration value.
pub struct SetupPrompt {
    pub key: String,
    pub question: String,
    pub default: Option<String>,
    pub required: bool,
    pub secret: bool,
}

/// Discord text integration for echo-system entities: the configuration, the
/// REST client, and whether the gateway and forwarder have been started.
pub struct DiscordEcho {
    config: Arc<Config>,
    client: Arc<DiscordClient>,
    running: bool,
}

/// What starting the plugin answers: refused when it already runs.
pub open spec fn start_answer(running: bool) -> Result<(), Seq<char>> {
    if running {
        Err("Already running"@)
    } else {
        Ok(())
    }
}

/// Whether `health_check` reports healthy.
pub open spec fn is_healthy(echo: &DiscordEcho) -> bool {
    echo.is_running()
}

impl DiscordEcho {
    /// Whether the gateway and forwarder run.
    pub closed spec fn is_running(&self) -> bool {
        self.running
    }

    /// The configuration.
    pub closed spec fn spec_config(&self) -> Config {
        *self.config
    }

    /// The REST client.
    pub closed spec fn spec_client(&self) -> DiscordClient {
        *self.client
    }

    /// Create a new instance from config; it is not started.
    pub fn new(config: Config) -> (echo: Self)
        ensures
            !echo.is_running(),
            echo.spec_config() == config,
            echo.spec_client().token() == config.bot_token@,
            echo.spec_client().channels().entries() == config.channels.entries(),
    {
        let client = DiscordClient::new(config.bot_token.clone(), config.channels.clone());
        DiscordEcho { config: Arc::new(config), client, running: false }
    }

    /// Get a reference to the Discord client for tool use.
    pub fn client(&self) -> (client: Arc<DiscordClient>)
        ensures
            *client == self.spec_client(),
    {
        share(&self.client)
    }

    /// Get a reference to the configuration.
    pub fn config(&self) -> (config: Arc<Config>)
        ensures
            *config == self.spec_config(),
    {
        share(&self.config)
    }

    /// Whether the gateway and forwarder run.
    pub fn running(&self) -> (running: bool)
        ensures
            running == self.is_running(),
    {
        self.running
    }

    /// Health check: healthy while started, else down.
    pub fn health_check(&self) -> (health: HealthStatus)
        ensures
            health is Healthy <==> is_healthy(self),
            health matches HealthStatus::Down(m) ==> m@ == "Not started"@,
    {
        if self.running {
            HealthStatus::Healthy
        } else {
            HealthStatus::Down("Not started".to_owned())
        }
    }

    /// Marks the plugin started, or refuses when it already runs.
    pub fn start(&mut self) -> (res: Result<(), String>)
        ensures
            final(self).is_running(),
            final(self).spec_config() == old(self).spec_config(),
            final(self).spec_client() == old(self).spec_client(),
            res is Ok <==> start_answer(old(self).is_running()) is Ok,
            res matches Err(e) ==> start_answer(old(self).is_running()) == Err::<(), Seq<char>>(
                e@,
            ),
    {
        if self.running {
            return Err("Already running".to_owned());
        }
        self.running = true;
        Ok(())
    }

    /// Marks the plugin stopped.
    pub fn stop(&mut self)
        ensures
            !final(self).is_running(),
            final(self).spec_config() == old(self).spec_config(),
            final(self).spec_client() == old(self).spec_client(),
    {
        self.running = false;
    }

    /// Setup prompts for first-time configuration: the bot token (secret) and the guild ID.
    pub fn get_setup_prompts() -> (prompts: Vec<SetupPrompt>)
        ensures
            prompts@.len() == 2,
            prompts@[0].key@ == "bot_token"@,
            prompts@[0].question@ == "Discord bot token:"@,
            prompts@[0].default is None,
            prompts@[0].required,
            prompts@[0].secret,
            prompts@[1].key@ == "guild_id"@,
            prompts@[1].question@ == "Discord server (guild) ID:"@,
            prompts@[1].default is None,
            prompts@[1].required,
            !prompts@[1].secret,
    {
        vec![
            SetupPrompt {
                key: "bot_token".to_owned(),
                question: "Discord bot token:".to_owned(),
                default: None,
                required: true,
                secret: true,
            },
            SetupPrompt {
                key: "guild_id".to_owned(),
                question: "Discord server (guild) ID:".to_owned(),
                default: None,
                required: true,
                secret: false,
            },
        ]
    }
}

/// A new plugin (`new` ensures it is not running) can be started and reports
/// down; once started (`start` ensures it runs), starting again is refused with
/// "Already running" and it reports healthy; once stopped (`stop` ensures it
/// does not run), it can be started again and reports down.
pub proof fn law_start_stop_cycle(fresh: DiscordEcho, started: DiscordEcho, stopped: DiscordEcho)
    requires
        !fresh.is_running(),
        started.is_running(),
        !stopped.is_running(),
    ensures
        start_answer(fresh.is_running()) is Ok,
        !is_healthy(&fresh),
        start_answer(started.is_running()) == Err::<(), Seq<char>>("Already running"@),
        is_healthy(&started),
        start_answer(stopped.is_running()) is Ok,
        !is_healthy(&stopped),
{
}

} // verus!
