//! Transport state machine: the lifecycle of the persistent connection, the
//! handshake, keep-alives and the reconnection policy. It performs no I/O:
//! each step takes what happened and says what to do next.
use vstd::prelude::*;
use crate::json::{json_member, json_member_of, opt_view, JsonMember, MemberView, ping_frame, ping_frame_of, pong_frame, pong_frame_of};
use crate::types::{ConnectionState, Event};

verus! {

/// Name of the service's handshake event, also delivered to bound handlers.
pub open spec fn established_name() -> Seq<char> {
    "pusher:connection_established"@
}

/// Name of the synthetic event delivered when the connection is lost.
pub open spec fn disconnected_name() -> Seq<char> {
    "pusher:disconnected"@
}

/// What an inbound frame holds.
#[derive(Debug, Clone)]
pub enum Inbound {
    /// The handshake, with the socket identifier and the raw data.
    Established { socket_id: String, data: String },
    /// A keep-alive of the service.
    Ping,
    /// The answer to our keep-alive.
    Pong,
    /// An event for the dispatcher.
    Message(Event),
    /// A frame of no known shape.
    Malformed,
}

/// What the driver of the transport has to do after a step.
#[derive(Debug, Clone)]
pub enum Reaction {
    /// Nothing.
    Ignore,
    /// Write this frame to the socket.
    Reply(String),
    /// Hand this event to the dispatcher.
    Deliver(Event),
    /// Close the socket, wait this many milliseconds, then call `retry`.
    Retry(u64),
    /// Close the socket: the attempts are exhausted.
    GiveUp,
}

/// The reconnection delay before attempt `n` (counted from zero): the base
/// delay doubled `n` times, never above the cap.
pub open spec fn backoff_of(base: nat, cap: nat, n: nat) -> nat
    decreases n,
{
    if n == 0 {
        if base <= cap {
            base
        } else {
            cap
        }
    } else {
        let prev = backoff_of(base, cap, (n - 1) as nat);
        if 2 * prev <= cap {
            2 * prev
        } else {
            cap
        }
    }
}

/// The state of the connection as the spec functions see it.
pub struct TransportView {
    pub state: ConnectionState,
    pub socket_id: Option<Seq<char>>,
    pub attempts: nat,
    pub awaiting_pong: bool,
    pub policy: ReconnectPolicy,
}

/// The bounded reconnection policy.
#[derive(Debug, Clone, Copy)]
pub struct ReconnectPolicy {
    pub max_attempts: u32,
    pub base_delay_ms: u64,
    pub max_delay_ms: u64,
}

impl ReconnectPolicy {
    /// Six attempts, from one second doubling up to thirty seconds.
    pub fn default_policy() -> (r: ReconnectPolicy)
        ensures
            r.max_attempts == 6,
            r.base_delay_ms == 1000,
            r.max_delay_ms == 30000,
    {
        ReconnectPolicy { max_attempts: 6, base_delay_ms: 1000, max_delay_ms: 30000 }
    }

    /// The delay before reconnection attempt `attempt` (counted from zero).
    pub fn backoff_delay(&self, attempt: u32) -> (r: u64)
        ensures
            r as nat == backoff_of(self.base_delay_ms as nat, self.max_delay_ms as nat, attempt as nat),
    {
        let cap = self.max_delay_ms;
        let mut d: u64 = if self.base_delay_ms <= cap {
            self.base_delay_ms
        } else {
            cap
        };
        let mut i: u32 = 0;
        while i < attempt
            invariant
                i <= attempt,
                cap == self.max_delay_ms,
                d <= cap,
                d as nat == backoff_of(self.base_delay_ms as nat, cap as nat, i as nat),
            decreases attempt - i,
        {
            if d > cap / 2 {
                d = cap;
            } else {
                d = 2 * d;
            }
            i = i + 1;
        }
        d
    }
}

/// The transport's connection state, socket identifier and retry count.
pub struct Transport {
    state: ConnectionState,
    socket_id: Option<String>,
    attempts: u32,
    awaiting_pong: bool,
    policy: ReconnectPolicy,
}

impl View for Transport {
    type V = TransportView;

    closed spec fn view(&self) -> TransportView {
        TransportView {
            state: self.state,
            socket_id: opt_view(self.socket_id),
            attempts: self.attempts as nat,
            awaiting_pong: self.awaiting_pong,
            policy: self.policy,
        }
    }
}

/// The invariant of the connection: a socket identifier is held exactly
/// while connected, and it is never empty.
pub open spec fn transport_inv(v: TransportView, max_attempts: nat) -> bool {
    &&& (v.state == ConnectionState::Connected) == (v.socket_id is Some)
    &&& (v.socket_id matches Some(s) ==> s.len() > 0)
    &&& v.attempts <= max_attempts
}

/// The classification of a frame whose members `event`, `channel` and `data`
/// were read, with `socket_id` read out of `data`.
pub open spec fn inbound_of(
    event: MemberView,
    channel: MemberView,
    data: MemberView,
    socket_id: MemberView,
) -> InboundView {
    let ch: Option<Option<Seq<char>>> = match channel {
        MemberView::Missing => Some(None),
        MemberView::Str(c) => Some(Some(c)),
        MemberView::Other(_) => None,
    };
    let d: Option<Seq<char>> = match data {
        MemberView::Missing => None,
        MemberView::Str(d) => Some(d),
        MemberView::Other(d) => Some(d),
    };
    match (event, ch, d) {
        (MemberView::Str(e), Some(c), Some(d)) => if e == established_name() {
            match socket_id {
                MemberView::Str(s) => if s.len() > 0 {
                    InboundView::Established { socket_id: s, data: d }
                } else {
                    InboundView::Malformed
                },
                _ => InboundView::Malformed,
            }
        } else if e == "pusher:ping"@ {
            InboundView::Ping
        } else if e == "pusher:pong"@ {
            InboundView::Pong
        } else {
            InboundView::Message { event: e, channel: c, data: d }
        },
        _ => InboundView::Malformed,
    }
}

/// A handshake carries a non-empty socket identifier.
pub open spec fn inbound_wf(v: InboundView) -> bool {
    v matches InboundView::Established { socket_id, .. } ==> socket_id.len() > 0
}

/// What an inbound frame holds, over plain sequences.
pub enum InboundView {
    Established { socket_id: Seq<char>, data: Seq<char> },
    Ping,
    Pong,
    Message { event: Seq<char>, channel: Option<Seq<char>>, data: Seq<char> },
    Malformed,
}

/// The view of an event.
pub open spec fn event_view(e: Event) -> (Seq<char>, Option<Seq<char>>, Seq<char>) {
    (e.event@, opt_view(e.channel), e.data@)
}

impl Inbound {
    pub open spec fn view_of(self) -> InboundView {
        match self {
            Inbound::Established { socket_id, data } => InboundView::Established {
                socket_id: socket_id@,
                data: data@,
            },
            Inbound::Ping => InboundView::Ping,
            Inbound::Pong => InboundView::Pong,
            Inbound::Message(e) => InboundView::Message {
                event: e.event@,
                channel: opt_view(e.channel),
                data: e.data@,
            },
            Inbound::Malformed => InboundView::Malformed,
        }
    }
}

/// A lost connection or failed handshake: while attempts remain the
/// transport waits to reconnect after the backoff delay of this attempt;
/// once they are exhausted it stops in `Failed`.
pub open spec fn fails(pre: TransportView, post: TransportView, r: Reaction) -> bool {
    if pre.attempts < pre.policy.max_attempts {
        &&& post == (TransportView {
            state: ConnectionState::Reconnecting,
            socket_id: None,
            attempts: pre.attempts + 1,
            awaiting_pong: false,
            policy: pre.policy,
        })
        &&& r matches Reaction::Retry(d) && d as nat == backoff_of(
            pre.policy.base_delay_ms as nat,
            pre.policy.max_delay_ms as nat,
            pre.attempts,
        )
    } else {
        &&& post == (TransportView {
            state: ConnectionState::Failed,
            socket_id: None,
            awaiting_pong: false,
            ..pre
        })
        &&& r is GiveUp
    }
}

/// A transport-level error: while connecting or connected it counts as a
/// lost connection; otherwise nothing changes.
pub open spec fn errs(pre: TransportView, post: TransportView, r: Reaction) -> bool {
    if pre.state == ConnectionState::Connecting || pre.state == ConnectionState::Connected {
        fails(pre, post, r)
    } else {
        post == pre && r is Ignore
    }
}

/// The activity timeout passed: a connected transport pings once, and a
/// second silent timeout counts as a lost connection.
pub open spec fn idles(pre: TransportView, post: TransportView, r: Reaction) -> bool {
    if pre.state != ConnectionState::Connected {
        post == pre && r is Ignore
    } else if !pre.awaiting_pong {
        &&& post == (TransportView { awaiting_pong: true, ..pre })
        &&& r matches Reaction::Reply(f) && f@ == ping_frame_of()
    } else {
        fails(pre, post, r)
    }
}

/// How the transport moves from `pre` to `post`, answering `r`, on an
/// inbound frame that holds `inbound`.
pub open spec fn reacts(pre: TransportView, post: TransportView, inbound: InboundView, r: Reaction) -> bool {
    &&& pre.state == ConnectionState::Connecting ==> match inbound {
        InboundView::Established { socket_id, data } => {
            &&& post == (TransportView {
                state: ConnectionState::Connected,
                socket_id: Some(socket_id),
                attempts: 0,
                awaiting_pong: false,
                policy: pre.policy,
            })
            &&& r matches Reaction::Deliver(e) && event_view(e) == (
                established_name(),
                None::<Seq<char>>,
                data,
            )
        },
        _ => fails(pre, post, r),
    }
    &&& pre.state == ConnectionState::Connected ==> {
        &&& post == (TransportView { awaiting_pong: false, ..pre })
        &&& match inbound {
            InboundView::Ping => r matches Reaction::Reply(f) && f@ == pong_frame_of(),
            InboundView::Message { event, channel, data } => r matches Reaction::Deliver(e)
                && event_view(e) == (event, channel, data),
            _ => r is Ignore,
        }
    }
    &&& (pre.state != ConnectionState::Connecting && pre.state != ConnectionState::Connected)
        ==> (post == pre && r is Ignore)
}

fn str_eq(a: &String, b: &str) -> (r: bool)
    ensures
        r == (a@ == b@),
{
    let b = String::from_str(b);
    *a == b
}

/// Classifies a frame from its members: `event`, `channel` and `data` as
/// read out of the frame, and `socket_id` as read out of `data`. The event
/// name must be a string; the channel, when present, must be a string; the
/// data must be present, as a string or as any other JSON value.
pub fn classify(
    event: JsonMember,
    channel: JsonMember,
    data: JsonMember,
    socket_id: JsonMember,
) -> (r: Inbound)
    ensures
        r.view_of() == inbound_of(event.view_of(), channel.view_of(), data.view_of(), socket_id.view_of()),
{
    let channel = match channel {
        JsonMember::Missing => None,
        JsonMember::Str(c) => Some(c),
        JsonMember::Other(_) => {
            return Inbound::Malformed;
        },
    };
    let data = match data {
        JsonMember::Missing => {
            return Inbound::Malformed;
        },
        JsonMember::Str(d) => d,
        JsonMember::Other(d) => d,
    };
    let e = match event {
        JsonMember::Str(e) => e,
        _ => {
            return Inbound::Malformed;
        },
    };
    if str_eq(&e, "pusher:connection_established") {
        match socket_id {
            JsonMember::Str(s) => {
                if s.unicode_len() > 0 {
                    Inbound::Established { socket_id: s, data }
                } else {
                    Inbound::Malformed
                }
            },
            _ => Inbound::Malformed,
        }
    } else if str_eq(&e, "pusher:ping") {
        Inbound::Ping
    } else if str_eq(&e, "pusher:pong") {
        Inbound::Pong
    } else {
        Inbound::Message(Event { event: e, channel, data })
    }
}

/// The text in which a handshake's socket identifier is looked up: the
/// data member, whether it came as a string or as another JSON value.
pub open spec fn data_text_of(data: MemberView) -> Option<Seq<char>> {
    match data {
        MemberView::Missing => None,
        MemberView::Str(d) => Some(d),
        MemberView::Other(d) => Some(d),
    }
}

/// What the inbound text frame `text` holds.
pub open spec fn frame_of(text: Seq<char>) -> InboundView {
    inbound_of(
        json_member_of(text, "event"@),
        json_member_of(text, "channel"@),
        json_member_of(text, "data"@),
        match data_text_of(json_member_of(text, "data"@)) {
            Some(d) => json_member_of(d, "socket_id"@),
            None => MemberView::Missing,
        },
    )
}

/// Reads an inbound text frame.
pub fn parse_frame(text: &str) -> (r: Inbound)
    ensures
        r.view_of() == frame_of(text@),
{
    let event = json_member(text, "event");
    let channel = json_member(text, "channel");
    let data = json_member(text, "data");
    let socket_id = match &data {
        JsonMember::Missing => JsonMember::Missing,
        JsonMember::Str(d) => json_member(d.as_str(), "socket_id"),
        JsonMember::Other(d) => json_member(d.as_str(), "socket_id"),
    };
    classify(event, channel, data, socket_id)
}

impl Transport {
    pub open spec fn max_attempts(&self) -> nat {
        self@.policy.max_attempts as nat
    }

    /// The invariant of the connection.
    pub open spec fn inv(&self) -> bool {
        transport_inv(self@, self.max_attempts())
    }

    /// A disconnected transport that reconnects under `policy`.
    pub fn new(policy: ReconnectPolicy) -> (r: Transport)
        ensures
            r.inv(),
            r@.state == ConnectionState::Disconnected,
            r@.socket_id is None,
            r@.attempts == 0,
            r@.policy == policy,
    {
        Transport { state: ConnectionState::Disconnected, socket_id: None, attempts: 0, awaiting_pong: false, policy }
    }

    /// The current connection state.
    pub fn state(&self) -> (r: ConnectionState)
        ensures
            r == self@.state,
    {
        self.state
    }

    /// The socket identifier, present exactly while connected.
    pub fn socket_id(&self) -> (r: Option<String>)
        ensures
            opt_view(r) == self@.socket_id,
    {
        self.socket_id.clone()
    }

    /// An explicit connect: from `Disconnected` or `Failed` the transport
    /// starts a fresh handshake; in any other state nothing changes.
    pub fn start(&mut self) -> (r: bool)
        requires
            old(self).inv(),
        ensures
            final(self).inv(),
            final(self)@.policy == old(self)@.policy,
            r == (old(self)@.state == ConnectionState::Disconnected || old(self)@.state == ConnectionState::Failed),
            r ==> final(self)@ == (TransportView { state: ConnectionState::Connecting, socket_id: None, attempts: 0, awaiting_pong: false, policy: old(self)@.policy }),
            !r ==> final(self)@ == old(self)@,
    {
        match self.state {
            ConnectionState::Disconnected | ConnectionState::Failed => {
                self.state = ConnectionState::Connecting;
                self.socket_id = None;
                self.attempts = 0;
                self.awaiting_pong = false;
                true
            },
            _ => false,
        }
    }

    /// After a reconnection delay: from `Reconnecting` a new handshake starts.
    pub fn retry(&mut self) -> (r: bool)
        requires
            old(self).inv(),
        ensures
            final(self).inv(),
            final(self)@.policy == old(self)@.policy,
            r == (old(self)@.state == ConnectionState::Reconnecting),
            r ==> final(self)@ == (TransportView { state: ConnectionState::Connecting, ..old(self)@ }),
            !r ==> final(self)@ == old(self)@,
    {
        if self.state == ConnectionState::Reconnecting {
            self.state = ConnectionState::Connecting;
            true
        } else {
            false
        }
    }

    /// Closes the connection from any state.
    pub fn close(&mut self) -> (r: bool)
        requires
            old(self).inv(),
        ensures
            final(self).inv(),
            final(self)@.policy == old(self)@.policy,
            r == (old(self)@.state == ConnectionState::Connected),
            final(self)@ == (TransportView { state: ConnectionState::Disconnected, socket_id: None, attempts: 0, awaiting_pong: false, policy: old(self)@.policy }),
    {
        let was = self.state == ConnectionState::Connected;
        self.state = ConnectionState::Disconnected;
        self.socket_id = None;
        self.attempts = 0;
        self.awaiting_pong = false;
        was
    }

    /// The connection was lost or the handshake failed: reconnect while
    /// attempts remain, else give up.
    pub fn fail(&mut self) -> (r: Reaction)
        requires
            old(self).inv(),
        ensures
            final(self).inv(),
            final(self)@.policy == old(self)@.policy,
            fails(old(self)@, final(self)@, r),
    {
        self.socket_id = None;
        self.awaiting_pong = false;
        if self.attempts < self.policy.max_attempts {
            let d = self.policy.backoff_delay(self.attempts);
            self.attempts = self.attempts + 1;
            self.state = ConnectionState::Reconnecting;
            Reaction::Retry(d)
        } else {
            self.state = ConnectionState::Failed;
            Reaction::GiveUp
        }
    }

    /// The activity timeout passed with no traffic: ping once, and treat a
    /// second silent timeout as a dead connection.
    pub fn on_idle(&mut self) -> (r: Reaction)
        requires
            old(self).inv(),
        ensures
            final(self).inv(),
            final(self)@.policy == old(self)@.policy,
            idles(old(self)@, final(self)@, r),
    {
        if self.state != ConnectionState::Connected {
            Reaction::Ignore
        } else if !self.awaiting_pong {
            self.awaiting_pong = true;
            Reaction::Reply(ping_frame())
        } else {
            self.fail()
        }
    }

    /// A transport-level error: while connecting or connected it counts as a
    /// lost connection; otherwise it changes nothing.
    pub fn on_error(&mut self) -> (r: Reaction)
        requires
            old(self).inv(),
        ensures
            final(self).inv(),
            final(self)@.policy == old(self)@.policy,
            errs(old(self)@, final(self)@, r),
    {
        match self.state {
            ConnectionState::Connecting | ConnectionState::Connected => self.fail(),
            _ => Reaction::Ignore,
        }
    }

    /// Reacts to one classified inbound frame.
    pub fn react(&mut self, inbound: Inbound) -> (r: Reaction)
        requires
            old(self).inv(),
            inbound_wf(inbound.view_of()),
        ensures
            final(self).inv(),
            final(self)@.policy == old(self)@.policy,
            reacts(old(self)@, final(self)@, inbound.view_of(), r),
    {
        match self.state {
            ConnectionState::Connecting => match inbound {
                Inbound::Established { socket_id, data } => {
                    self.state = ConnectionState::Connected;
                    self.socket_id = Some(socket_id);
                    self.attempts = 0;
                    self.awaiting_pong = false;
                    Reaction::Deliver(Event { event: String::from_str("pusher:connection_established"), channel: None, data })
                },
                _ => self.fail(),
            },
            ConnectionState::Connected => {
                self.awaiting_pong = false;
                match inbound {
                    Inbound::Ping => Reaction::Reply(pong_frame()),
                    Inbound::Message(e) => Reaction::Deliver(e),
                    _ => Reaction::Ignore,
                }
            },
            _ => Reaction::Ignore,
        }
    }

    /// Reads and reacts to one inbound text frame.
    pub fn on_frame(&mut self, text: &str) -> (r: Reaction)
        requires
            old(self).inv(),
        ensures
            final(self).inv(),
            final(self)@.policy == old(self)@.policy,
            reacts(old(self)@, final(self)@, frame_of(text@), r),
    {
        let inbound = parse_frame(text);
        self.react(inbound)
    }
}

/// The synthetic event that tells bound handlers the connection was lost.
pub fn disconnected_event() -> (r: Event)
    ensures
        event_view(r) == (disconnected_name(), None::<Seq<char>>, Seq::<char>::empty()),
{
    Event { event: String::from_str("pusher:disconnected"), channel: None, data: String::new() }
}

/// While the invariant holds, a connected transport has recorded a
/// non-empty socket identifier, and any other state holds none.
pub proof fn lemma_connected_has_socket(v: TransportView, max_attempts: nat)
    requires
        transport_inv(v, max_attempts),
    ensures
        v.state == ConnectionState::Connected ==> (v.socket_id matches Some(s) && s.len() > 0),
        v.state != ConnectionState::Connected ==> v.socket_id is None,
{
}

/// Each lost connection uses up one reconnection attempt and the count
/// never passes the cap; once no attempt remains the transport gives up and
/// stays in `Failed`.
pub proof fn lemma_reconnects_bounded(pre: TransportView, post: TransportView, r: Reaction)
    requires
        transport_inv(pre, pre.policy.max_attempts as nat),
        fails(pre, post, r),
    ensures
        transport_inv(post, post.policy.max_attempts as nat),
        post.policy == pre.policy,
        r is Retry ==> post.attempts == pre.attempts + 1 && post.state == ConnectionState::Reconnecting,
        pre.attempts == pre.policy.max_attempts ==> post.state == ConnectionState::Failed && r is GiveUp,
        post.state == ConnectionState::Failed ==> errs(post, post, Reaction::Ignore),
{
}

} // verus!
