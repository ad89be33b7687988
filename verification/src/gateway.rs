//! The decisions of the gateway connection: what to connect to, how to
//! authenticate, how long to back off, and what each inbound event changes and
//! asks for. The connection itself (sockets, timers, tasks) is driven from outside.
use vstd::prelude::*;

use vstd::arithmetic::power2::{lemma2_to64, pow2};

use crate::config::Config;
use crate::text::str_eq;
use crate::types::{
    opt_view, GatewayEvent, GatewayPayload, IncomingMessage, IncomingView, MessageCreateData,
    PayloadData, PayloadDataView, PayloadView, GATEWAY_URL, INTENT_GUILD_MESSAGES,
    INTENT_MESSAGE_CONTENT, OP_DISPATCH, OP_HEARTBEAT, OP_HELLO, OP_IDENTIFY, OP_INVALID_SESSION,
    OP_RECONNECT, OP_RESUME,
};

verus! {

/// The longest wait between reconnection attempts, in seconds.
pub const MAX_RECONNECT_BACKOFF_SECS: u64 = 30;

/// How long to wait before identifying again after an invalid session, in seconds.
pub const IDENTIFY_DELAY_SECS: u64 = 5;

/// The heartbeat interval used when Hello names none, in milliseconds.
pub const DEFAULT_HEARTBEAT_INTERVAL_MS: u64 = 41250;

/// The state that a gateway connection keeps across reconnects.
pub struct SessionState {
    pub session_id: Option<Seq<char>>,
    pub resume_url: Option<Seq<char>>,
    pub self_bot_id: Option<Seq<char>>,
    pub sequence: u64,
    pub backoff_secs: u64,
}

/// What the connection is asked to do after an event.
pub enum GatewayAction {
    /// Nothing to do.
    Nothing,
    /// Hand the message on to the forwarder.
    Forward(IncomingMessage),
    /// Send the payload over the socket.
    Send(GatewayPayload),
    /// Close this connection and connect again after `delay_secs`, without backing off.
    Reconnect { delay_secs: u64 },
}

/// The view of a [`GatewayAction`].
pub enum ActionView {
    Nothing,
    Forward(IncomingView),
    Send(PayloadView),
    Reconnect { delay_secs: u64 },
}

impl View for GatewayAction {
    type V = ActionView;

    open spec fn view(&self) -> ActionView {
        match self {
            GatewayAction::Nothing => ActionView::Nothing,
            GatewayAction::Forward(m) => ActionView::Forward(m@),
            GatewayAction::Send(p) => ActionView::Send(p@),
            GatewayAction::Reconnect { delay_secs } => ActionView::Reconnect {
                delay_secs: *delay_secs,
            },
        }
    }
}

/// How a connection attempt or a connection came to an end.
pub enum ConnectionEnd {
    /// The connection could not be established.
    ConnectFailed,
    /// The first frame was not a Hello event.
    NoHello,
    /// Identify or Resume could not be sent.
    AuthNotSent,
    /// The socket closed, failed or ended.
    Lost,
    /// The gateway asked for the reconnect (op 7 or op 9); any wait came with that action.
    Requested,
}

/// Whether the next attempt waits the backoff: after every ending but a
/// reconnect that the gateway itself asked for.
pub open spec fn backs_off(end: ConnectionEnd) -> bool {
    !(end is Requested)
}

/// The wait before the next attempt after `end`.
pub open spec fn delay_after(s: SessionState, end: ConnectionEnd) -> u64 {
    if backs_off(end) {
        s.backoff_secs
    } else {
        0
    }
}

/// The session state after `end`: the wait doubles when it was taken.
pub open spec fn state_after_end(s: SessionState, end: ConnectionEnd) -> SessionState {
    if backs_off(end) {
        SessionState { backoff_secs: next_backoff(s.backoff_secs), ..s }
    } else {
        s
    }
}

/// The wait after the current one: doubled, up to `MAX_RECONNECT_BACKOFF_SECS`.
pub open spec fn next_backoff(b: u64) -> u64 {
    if b * 2 <= MAX_RECONNECT_BACKOFF_SECS {
        (b * 2) as u64
    } else {
        MAX_RECONNECT_BACKOFF_SECS
    }
}

/// The URL to connect to: the resume URL of the session, else the default gateway.
pub open spec fn connect_url_of(s: SessionState) -> Seq<char> {
    match s.resume_url {
        Some(u) => u,
        None => GATEWAY_URL@,
    }
}

/// The intents that the bot identifies with.
pub open spec fn bot_intents() -> u64 {
    INTENT_GUILD_MESSAGES | INTENT_MESSAGE_CONTENT
}

/// The payload that authenticates a new connection: Resume when a session is
/// known, else Identify.
pub open spec fn auth_payload_of(s: SessionState, token: Seq<char>) -> PayloadView {
    match s.session_id {
        Some(sid) => PayloadView {
            op: OP_RESUME,
            d: PayloadDataView::Resume { token, session_id: sid, seq: s.sequence },
        },
        None => PayloadView {
            op: OP_IDENTIFY,
            d: PayloadDataView::Identify {
                token,
                intents: bot_intents(),
                os: "linux"@,
                browser: "discord-echo"@,
                device: "discord-echo"@,
            },
        },
    }
}

/// A heartbeat carrying `seq`.
pub open spec fn heartbeat_of(seq: u64) -> PayloadView {
    PayloadView { op: OP_HEARTBEAT, d: PayloadDataView::Heartbeat { seq } }
}

/// Whether the event's type is `name`.
pub open spec fn has_type(e: &GatewayEvent, name: Seq<char>) -> bool {
    e.t matches Some(t) && t@ == name
}

/// The sequence number after the event: the event's own, when it has one.
pub open spec fn sequence_after(s: SessionState, e: &GatewayEvent) -> u64 {
    match e.s {
        Some(n) => n,
        None => s.sequence,
    }
}

/// Whether an invalid-session event says that the session can be resumed.
pub open spec fn is_resumable(e: &GatewayEvent) -> bool {
    e.d.resumable == Some(true)
}

/// The session state after an event.
pub open spec fn state_after(s: SessionState, e: &GatewayEvent) -> SessionState {
    let seq = sequence_after(s, e);
    if e.op == OP_DISPATCH && has_type(e, "READY"@) && e.d.ready is Some {
        let r = e.d.ready->0;
        SessionState {
            session_id: Some(r.session_id@),
            resume_url: Some(r.resume_gateway_url@),
            self_bot_id: Some(r.user.id@),
            sequence: seq,
            ..s
        }
    } else if e.op == OP_INVALID_SESSION && !is_resumable(e) {
        SessionState { session_id: None, resume_url: None, sequence: 0, ..s }
    } else {
        SessionState { sequence: seq, ..s }
    }
}

/// Whether a created message is handed on: it is not the bot's own, and the
/// channel and the author pass the configured filters.
pub open spec fn is_forwarded(s: SessionState, config: &Config, m: &MessageCreateData) -> bool {
    &&& s.self_bot_id != Some(m.author.id@)
    &&& config.spec_is_listen_channel(m.channel_id@)
    &&& config.spec_is_allowed_user(m.author.id@)
}

/// The message handed on for a created message.
pub open spec fn incoming_of(config: &Config, m: &MessageCreateData) -> IncomingView {
    IncomingView {
        channel_id: m.channel_id@,
        channel_name: config.spec_channel_name(m.channel_id@),
        author_id: m.author.id@,
        author_name: m.author.username@,
        content: m.content@,
    }
}

/// What the connection is asked to do after an event.
pub open spec fn action_after(s: SessionState, config: &Config, e: &GatewayEvent) -> ActionView {
    if e.op == OP_DISPATCH {
        if has_type(e, "MESSAGE_CREATE"@) && e.d.message is Some && is_forwarded(
            s,
            config,
            &e.d.message->0,
        ) {
            ActionView::Forward(incoming_of(config, &e.d.message->0))
        } else {
            ActionView::Nothing
        }
    } else if e.op == OP_HEARTBEAT {
        ActionView::Send(heartbeat_of(sequence_after(s, e)))
    } else if e.op == OP_RECONNECT {
        ActionView::Reconnect { delay_secs: 0 }
    } else if e.op == OP_INVALID_SESSION {
        ActionView::Reconnect { delay_secs: IDENTIFY_DELAY_SECS }
    } else {
        ActionView::Nothing
    }
}

/// The heartbeat interval that a Hello event announces, or `None` for any other event.
pub fn hello_interval(event: &GatewayEvent) -> (interval: Option<u64>)
    ensures
        interval == (if event.op == OP_HELLO {
            Some(
                match event.d.heartbeat_interval {
                    Some(i) => i,
                    None => DEFAULT_HEARTBEAT_INTERVAL_MS,
                },
            )
        } else {
            None
        }),
{
    if event.op == OP_HELLO {
        match event.d.heartbeat_interval {
            Some(i) => Some(i),
            None => Some(DEFAULT_HEARTBEAT_INTERVAL_MS),
        }
    } else {
        None
    }
}

/// A heartbeat carrying `seq`.
pub fn heartbeat_for(seq: u64) -> (p: GatewayPayload)
    ensures
        p@ == heartbeat_of(seq),
{
    GatewayPayload { op: OP_HEARTBEAT, d: PayloadData::Heartbeat { seq } }
}

/// The state of a gateway connection that survives reconnects.
pub struct GatewaySession {
    session_id: Option<String>,
    resume_url: Option<String>,
    self_bot_id: Option<String>,
    sequence: u64,
    backoff_secs: u64,
}

impl View for GatewaySession {
    type V = SessionState;

    closed spec fn view(&self) -> SessionState {
        SessionState {
            session_id: opt_view(self.session_id),
            resume_url: opt_view(self.resume_url),
            self_bot_id: opt_view(self.self_bot_id),
            sequence: self.sequence,
            backoff_secs: self.backoff_secs,
        }
    }
}

impl GatewaySession {
    #[verifier::type_invariant]
    closed spec fn backoff_in_range(&self) -> bool {
        1 <= self.backoff_secs <= MAX_RECONNECT_BACKOFF_SECS
    }

    /// A session that has never connected.
    pub fn new() -> (s: Self)
        ensures
            s@ == (SessionState {
                session_id: None,
                resume_url: None,
                self_bot_id: None,
                sequence: 0,
                backoff_secs: 1,
            }),
    {
        GatewaySession {
            session_id: None,
            resume_url: None,
            self_bot_id: None,
            sequence: 0,
            backoff_secs: 1,
        }
    }

    /// The wait before the next reconnect is always between 1 and
    /// `MAX_RECONNECT_BACKOFF_SECS` seconds.
    pub fn backoff_secs(&self) -> (b: u64)
        ensures
            b == self@.backoff_secs,
            1 <= b <= MAX_RECONNECT_BACKOFF_SECS,
    {
        proof {
            use_type_invariant(self);
        }
        self.backoff_secs
    }

    /// The last sequence number seen.
    pub fn sequence(&self) -> (seq: u64)
        ensures
            seq == self@.sequence,
    {
        self.sequence
    }

    /// The ID of the current session, if one is known.
    pub fn session_id(&self) -> (sid: Option<&str>)
        ensures
            sid matches Some(v) ==> self@.session_id == Some(v@),
            sid is None ==> self@.session_id is None,
    {
        match &self.session_id {
            Some(v) => Some(v.as_str()),
            None => None,
        }
    }

    /// The URL to connect to.
    pub fn connect_url(&self) -> (url: String)
        ensures
            url@ == connect_url_of(self@),
    {
        match &self.resume_url {
            Some(u) => u.clone(),
            None => GATEWAY_URL.to_owned(),
        }
    }

    /// A connection was established: the wait starts over at one second.
    pub fn connected(&mut self)
        ensures
            final(self)@ == (SessionState { backoff_secs: 1, ..old(self)@ }),
    {
        self.backoff_secs = 1;
    }

    /// A connection attempt failed or a connection was lost: returns how long to
    /// wait before the next attempt and doubles the wait after it, up to the limit.
    pub fn take_backoff(&mut self) -> (delay_secs: u64)
        ensures
            delay_secs == old(self)@.backoff_secs,
            final(self)@ == (SessionState {
                backoff_secs: next_backoff(old(self)@.backoff_secs),
                ..old(self)@
            }),
    {
        proof {
            use_type_invariant(&*self);
        }
        let delay = self.backoff_secs;
        let doubled = delay * 2;
        self.backoff_secs = if doubled <= MAX_RECONNECT_BACKOFF_SECS {
            doubled
        } else {
            MAX_RECONNECT_BACKOFF_SECS
        };
        delay
    }

    /// A connection attempt or a connection ended: returns how long to wait
    /// before the next attempt, taking (and doubling) the backoff, except after a
    /// reconnect that the gateway asked for, which waits nothing here.
    pub fn connection_ended(&mut self, end: ConnectionEnd) -> (delay_secs: u64)
        ensures
            delay_secs == delay_after(old(self)@, end),
            final(self)@ == state_after_end(old(self)@, end),
    {
        match end {
            ConnectionEnd::Requested => 0,
            _ => self.take_backoff(),
        }
    }

    /// The payload that authenticates a new connection.
    pub fn auth_payload(&self, token: &str) -> (p: GatewayPayload)
        ensures
            p@ == auth_payload_of(self@, token@),
    {
        match &self.session_id {
            Some(sid) => GatewayPayload {
                op: OP_RESUME,
                d: PayloadData::Resume {
                    token: token.to_owned(),
                    session_id: sid.clone(),
                    seq: self.sequence,
                },
            },
            None => GatewayPayload {
                op: OP_IDENTIFY,
                d: PayloadData::Identify {
                    token: token.to_owned(),
                    intents: INTENT_GUILD_MESSAGES | INTENT_MESSAGE_CONTENT,
                    os: "linux".to_owned(),
                    browser: "discord-echo".to_owned(),
                    device: "discord-echo".to_owned(),
                },
            },
        }
    }

    /// A heartbeat carrying the last sequence number seen.
    pub fn heartbeat_payload(&self) -> (p: GatewayPayload)
        ensures
            p@ == heartbeat_of(self@.sequence),
    {
        heartbeat_for(self.sequence)
    }

    fn event_type_is(event: &GatewayEvent, name: &str) -> (res: bool)
        ensures
            res == has_type(event, name@),
    {
        match &event.t {
            Some(t) => str_eq(t.as_str(), name),
            None => false,
        }
    }

    /// Takes in one inbound event: updates the session and says what to do.
    pub fn handle_event(&mut self, config: &Config, event: GatewayEvent) -> (action: GatewayAction)
        ensures
            final(self)@ == state_after(old(self)@, &event),
            action@ == action_after(old(self)@, config, &event),
    {
        proof {
            use_type_invariant(&*self);
            reveal_strlit("READY");
            reveal_strlit("MESSAGE_CREATE");
            assert("READY"@.len() != "MESSAGE_CREATE"@.len());
        }
        if let Some(s) = event.s {
            self.sequence = s;
        }
        let is_ready = Self::event_type_is(&event, "READY");
        let is_message = Self::event_type_is(&event, "MESSAGE_CREATE");
        if event.op == OP_DISPATCH {
            if is_ready {
                match &event.d.ready {
                    Some(r) => {
                        self.session_id = Some(r.session_id.clone());
                        self.resume_url = Some(r.resume_gateway_url.clone());
                        self.self_bot_id = Some(r.user.id.clone());
                    },
                    None => {},
                }
            } else if is_message {
                match &event.d.message {
                    Some(m) => {
                        let own = match &self.self_bot_id {
                            Some(own_id) => str_eq(m.author.id.as_str(), own_id.as_str()),
                            None => false,
                        };
                        if !own && config.is_listen_channel(m.channel_id.as_str())
                            && config.is_allowed_user(m.author.id.as_str()) {
                            let channel_name = match config.channel_name(m.channel_id.as_str()) {
                                Some(n) => Some(n.to_owned()),
                                None => None,
                            };
                            return GatewayAction::Forward(
                                IncomingMessage {
                                    channel_id: m.channel_id.clone(),
                                    channel_name,
                                    author_id: m.author.id.clone(),
                                    author_name: m.author.username.clone(),
                                    content: m.content.clone(),
                                },
                            );
                        }
                    },
                    None => {},
                }
            }
            GatewayAction::Nothing
        } else if event.op == OP_HEARTBEAT {
            self.heartbeat_payload_action()
        } else if event.op == OP_RECONNECT {
            GatewayAction::Reconnect { delay_secs: 0 }
        } else if event.op == OP_INVALID_SESSION {
            let resumable = match event.d.resumable {
                Some(b) => b,
                None => false,
            };
            if !resumable {
                self.session_id = None;
                self.resume_url = None;
                self.sequence = 0;
            }
            GatewayAction::Reconnect { delay_secs: IDENTIFY_DELAY_SECS }
        } else {
            GatewayAction::Nothing
        }
    }

    fn heartbeat_payload_action(&self) -> (a: GatewayAction)
        ensures
            a@ == ActionView::Send(heartbeat_of(self@.sequence)),
    {
        GatewayAction::Send(self.heartbeat_payload())
    }
}

/// The wait after `k` failed attempts in a row, counted from a fresh or
/// just-connected session.
pub open spec fn backoff_after_failures(k: nat) -> u64
    decreases k,
{
    if k == 0 {
        1
    } else {
        next_backoff(backoff_after_failures((k - 1) as nat))
    }
}

/// The wait never drops below one second, never exceeds the limit, and never
/// shrinks from one failure to the next.
pub proof fn law_backoff_stays_in_range(b: u64)
    requires
        1 <= b <= MAX_RECONNECT_BACKOFF_SECS,
    ensures
        1 <= next_backoff(b) <= MAX_RECONNECT_BACKOFF_SECS,
        b <= next_backoff(b),
{
}

/// Reconnect backoff is exponential: after `k` failures in a row the wait is
/// `2^k` seconds, capped at `MAX_RECONNECT_BACKOFF_SECS`.
pub proof fn law_backoff_doubles_up_to_cap(k: nat)
    ensures
        backoff_after_failures(k) == (if k >= 5 {
            MAX_RECONNECT_BACKOFF_SECS as nat
        } else {
            pow2(k)
        }),
    decreases k,
{
    lemma2_to64();
    if k > 0 {
        law_backoff_doubles_up_to_cap((k - 1) as nat);
    }
}

/// Events never change the reconnect wait.
pub proof fn law_events_keep_backoff(s: SessionState, e: &GatewayEvent)
    ensures
        state_after(s, e).backoff_secs == s.backoff_secs,
{
}

/// After READY, the next connection goes to the resume URL and resumes that
/// session from the latest sequence number.
pub proof fn law_ready_leads_to_resume(s: SessionState, e: &GatewayEvent, token: Seq<char>)
    requires
        e.op == OP_DISPATCH,
        has_type(e, "READY"@),
        e.d.ready is Some,
    ensures
        ({
            let n = state_after(s, e);
            let r = e.d.ready->0;
            &&& connect_url_of(n) == r.resume_gateway_url@
            &&& auth_payload_of(n, token) == (PayloadView {
                op: OP_RESUME,
                d: PayloadDataView::Resume {
                    token,
                    session_id: r.session_id@,
                    seq: sequence_after(s, e),
                },
            })
            &&& n.self_bot_id == Some(r.user.id@)
        }),
{
}

/// A session that the gateway declares invalid and not resumable is dropped:
/// after the identify delay, the next connection goes to the default gateway
/// and identifies afresh, counting sequence numbers from zero.
pub proof fn law_invalid_session_starts_over(
    s: SessionState,
    config: &Config,
    e: &GatewayEvent,
    token: Seq<char>,
)
    requires
        e.op == OP_INVALID_SESSION,
        !is_resumable(e),
    ensures
        ({
            let n = state_after(s, e);
            &&& n.session_id is None
            &&& n.sequence == 0
            &&& connect_url_of(n) == GATEWAY_URL@
            &&& auth_payload_of(n, token).op == OP_IDENTIFY
            &&& action_after(s, config, e) == (ActionView::Reconnect {
                delay_secs: IDENTIFY_DELAY_SECS,
            })
        }),
{
}

/// A resumable invalid session keeps the session: the next connection resumes it.
pub proof fn law_resumable_session_is_kept(
    s: SessionState,
    e: &GatewayEvent,
    token: Seq<char>,
)
    requires
        e.op == OP_INVALID_SESSION,
        is_resumable(e),
        s.session_id is Some,
    ensures
        state_after(s, e).session_id == s.session_id,
        state_after(s, e).resume_url == s.resume_url,
        auth_payload_of(state_after(s, e), token).op == OP_RESUME,
{
}

/// Only READY and a non-resumable INVALID_SESSION change who the session is.
pub proof fn law_other_events_keep_session(s: SessionState, e: &GatewayEvent)
    requires
        !(e.op == OP_DISPATCH && has_type(e, "READY"@)),
        !(e.op == OP_INVALID_SESSION && !is_resumable(e)),
    ensures
        state_after(s, e).session_id == s.session_id,
        state_after(s, e).resume_url == s.resume_url,
        state_after(s, e).self_bot_id == s.self_bot_id,
{
}

/// Every sequence number that an event carries becomes the latest one (unless
/// the session is dropped), and a heartbeat requested by that event reports it.
pub proof fn law_sequence_follows_events(s: SessionState, config: &Config, e: &GatewayEvent)
    requires
        e.s is Some,
        !(e.op == OP_INVALID_SESSION && !is_resumable(e)),
    ensures
        state_after(s, e).sequence == e.s->0,
        e.op == OP_HEARTBEAT ==> action_after(s, config, e) == ActionView::Send(
            heartbeat_of(e.s->0),
        ),
{
}

/// A forwarded message is never the bot's own, and its channel and author pass
/// the configured filters.
pub proof fn law_forwarded_messages_pass_filters(
    s: SessionState,
    config: &Config,
    e: &GatewayEvent,
)
    ensures
        action_after(s, config, e) matches ActionView::Forward(m) ==> {
            &&& s.self_bot_id != Some(m.author_id)
            &&& config.spec_is_listen_channel(m.channel_id)
            &&& config.spec_is_allowed_user(m.author_id)
        },
{
}

/// A message that the bot wrote itself is never forwarded.
pub proof fn law_own_messages_are_dropped(s: SessionState, config: &Config, e: &GatewayEvent)
    requires
        e.d.message is Some,
        s.self_bot_id == Some(e.d.message->0.author.id@),
    ensures
        !(action_after(s, config, e) is Forward),
{
}

/// Every reconnect waits at most `MAX_RECONNECT_BACKOFF_SECS`; one after a
/// failed attempt, a missing Hello, an unsent Identify or Resume, or a lost
/// connection waits the current backoff (at least one second) and doubles it,
/// and one that the gateway asked for (op 7, op 9) waits nothing here and leaves
/// the backoff as it was.
pub proof fn law_reconnect_delays(s: SessionState, end: ConnectionEnd)
    requires
        1 <= s.backoff_secs <= MAX_RECONNECT_BACKOFF_SECS,
    ensures
        delay_after(s, end) <= MAX_RECONNECT_BACKOFF_SECS,
        backs_off(end) ==> 1 <= delay_after(s, end) && state_after_end(s, end).backoff_secs
            == next_backoff(s.backoff_secs),
        !backs_off(end) ==> delay_after(s, end) == 0 && state_after_end(s, end) == s,
{
}

/// The session state after a run of events, and the messages handed on, in order.
pub open spec fn run_events(s: SessionState, config: &Config, events: Seq<GatewayEvent>) -> (
    SessionState,
    Seq<IncomingView>,
)
    decreases events.len(),
{
    if events.len() == 0 {
        (s, Seq::empty())
    } else {
        let e = events[0];
        let forwarded = match action_after(s, config, &e) {
            ActionView::Forward(m) => seq![m],
            _ => Seq::empty(),
        };
        let rest = run_events(state_after(s, &e), config, events.drop_first());
        (rest.0, forwarded + rest.1)
    }
}

/// Handing on is compositional: the messages handed on for two runs of events
/// one after the other are those of the first followed by those of the second.
pub proof fn law_forwarding_composes(
    s: SessionState,
    config: &Config,
    first: Seq<GatewayEvent>,
    second: Seq<GatewayEvent>,
)
    ensures
        run_events(s, config, first + second) == (
            run_events(run_events(s, config, first).0, config, second).0,
            run_events(s, config, first).1 + run_events(
                run_events(s, config, first).0,
                config,
                second,
            ).1,
        ),
    decreases first.len(),
{
    if first.len() == 0 {
        assert(first + second =~= second);
    } else {
        let e = first[0];
        assert((first + second)[0] == e);
        assert((first + second).drop_first() =~= first.drop_first() + second);
        law_forwarding_composes(state_after(s, &e), config, first.drop_first(), second);
    }
}

/// A run of created messages that all pass the filters is handed on whole:
/// each message once, in the order received.
pub proof fn law_messages_forwarded_once_in_order(
    s: SessionState,
    config: &Config,
    events: Seq<GatewayEvent>,
)
    requires
        forall|i: int|
            0 <= i < events.len() ==> {
                &&& (#[trigger] events[i]).op == OP_DISPATCH
                &&& has_type(&events[i], "MESSAGE_CREATE"@)
                &&& events[i].d.message is Some
                &&& is_forwarded(s, config, &events[i].d.message->0)
            },
    ensures
        run_events(s, config, events).1 == events.map_values(
            |e: GatewayEvent| incoming_of(config, &e.d.message->0),
        ),
    decreases events.len(),
{
    if events.len() > 0 {
        reveal_strlit("READY");
        reveal_strlit("MESSAGE_CREATE");
        assert("READY"@.len() != "MESSAGE_CREATE"@.len());
        let e = events[0];
        let n = state_after(s, &e);
        assert(n.self_bot_id == s.self_bot_id);
        let rest = events.drop_first();
        assert forall|i: int| 0 <= i < rest.len() implies {
            &&& (#[trigger] rest[i]).op == OP_DISPATCH
            &&& has_type(&rest[i], "MESSAGE_CREATE"@)
            &&& rest[i].d.message is Some
            &&& is_forwarded(n, config, &rest[i].d.message->0)
        } by {
            assert(rest[i] == events[i + 1]);
        }
        law_messages_forwarded_once_in_order(n, config, rest);
        assert(events.map_values(|e: GatewayEvent| incoming_of(config, &e.d.message->0))
            =~= seq![incoming_of(config, &e.d.message->0)] + rest.map_values(
            |e: GatewayEvent| incoming_of(config, &e.d.message->0),
        ));
    }
}

/// Whether the event is a created message with readable data.
pub open spec fn is_message_create(e: &GatewayEvent) -> bool {
    e.op == OP_DISPATCH && has_type(e, "MESSAGE_CREATE"@) && e.d.message is Some
}

/// The messages that the created-message events among `events` describe, in order.
pub open spec fn created_messages(config: &Config, events: Seq<GatewayEvent>) -> Seq<IncomingView>
    decreases events.len(),
{
    if events.len() == 0 {
        Seq::empty()
    } else if is_message_create(&events[0]) {
        seq![incoming_of(config, &events[0].d.message->0)] + created_messages(
            config,
            events.drop_first(),
        )
    } else {
        created_messages(config, events.drop_first())
    }
}

/// Among any other frames, the created messages that pass the filters are
/// handed on each once, in the order received, and nothing else is handed on
/// (so long as no READY changes who the bot is meanwhile).
pub proof fn law_created_messages_forwarded_once_in_order(
    s: SessionState,
    config: &Config,
    events: Seq<GatewayEvent>,
)
    requires
        forall|i: int|
            0 <= i < events.len() ==> !((#[trigger] events[i]).op == OP_DISPATCH && has_type(
                &events[i],
                "READY"@,
            ) && events[i].d.ready is Some),
        forall|i: int|
            0 <= i < events.len() && is_message_create(&events[i]) ==> is_forwarded(
                s,
                config,
                &(#[trigger] events[i]).d.message->0,
            ),
    ensures
        run_events(s, config, events).1 == created_messages(config, events),
    decreases events.len(),
{
    if events.len() > 0 {
        let e = events[0];
        let n = state_after(s, &e);
        assert(n.self_bot_id == s.self_bot_id);
        let rest = events.drop_first();
        assert forall|i: int| 0 <= i < rest.len() implies !((#[trigger] rest[i]).op == OP_DISPATCH
            && has_type(&rest[i], "READY"@) && rest[i].d.ready is Some) by {
            assert(rest[i] == events[i + 1]);
        }
        assert forall|i: int|
            0 <= i < rest.len() && is_message_create(&rest[i]) implies is_forwarded(
            n,
            config,
            &(#[trigger] rest[i]).d.message->0,
        ) by {
            assert(rest[i] == events[i + 1]);
        }
        law_created_messages_forwarded_once_in_order(n, config, rest);
        if is_message_create(&e) {
            assert(action_after(s, config, &e) == ActionView::Forward(
                incoming_of(config, &e.d.message->0),
            ));
        } else {
            assert(!(action_after(s, config, &e) is Forward));
            assert(Seq::<IncomingView>::empty() + run_events(n, config, rest).1 =~= run_events(
                n,
                config,
                rest,
            ).1);
        }
    }
}

/// The heartbeat sent in answer to a heartbeat request (op 1) carries the
/// session's latest sequence number after that request: the request's own,
/// when it has one, and otherwise the one the session held before it.
pub proof fn law_heartbeat_answer_carries_latest_sequence(
    s: SessionState,
    config: &Config,
    e: &GatewayEvent,
)
    requires
        e.op == OP_HEARTBEAT,
    ensures
        action_after(s, config, e) == ActionView::Send(
            heartbeat_of(state_after(s, e).sequence),
        ),
        e.s is None ==> action_after(s, config, e) == ActionView::Send(heartbeat_of(s.sequence)),
        e.s matches Some(n) ==> action_after(s, config, e) == ActionView::Send(heartbeat_of(n)),
{
}

} // verus!
