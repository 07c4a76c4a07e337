//! The outbound connector as a state machine: authentication, heartbeats,
//! inbound reassembly and reconnect bookkeeping. The transport itself is the
//! caller's; it hands in what arrived and performs what comes back.

use vstd::prelude::*;
use vstd::string::*;
use crate::backoff::{backoff_ms, reconnect_delay};
use crate::config::AgentConfig;
use crate::protocol::{
    auth_request, first_frame, frame_of, has_frame, heartbeat, heartbeat_ack, AuthRequest,
    AuthResponse, Frame, Message, AUTH_REQUEST, AUTH_RESPONSE, HEARTBEAT, HEARTBEAT_ACK,
};
use crate::reassembly::{frames_in, rest_after_frames, FrameBuffer};

verus! {

/// How long the connector waits for the authentication response.
pub const AUTH_TIMEOUT_SECS: u64 = 10;

/// The connection counts as dead after this many heartbeat intervals
/// without an acknowledgement.
pub const HEARTBEAT_TIMEOUT_FACTOR: u64 = 3;

/// Events handed to the owner of the connection.
#[derive(Debug)]
pub enum ServerEvent {
    /// Successfully authenticated
    Authenticated { device_id: String, session_token: String },
    /// Received a protocol message from the server
    Message(Message),
    /// Connection lost
    Disconnected,
}

/// An event as a mathematical value.
pub enum EventView {
    Authenticated { device_id: Seq<char>, session_token: Seq<char> },
    Message(Frame),
    Disconnected,
}

impl View for ServerEvent {
    type V = EventView;

    open spec fn view(&self) -> EventView {
        match self {
            ServerEvent::Authenticated { device_id, session_token } => EventView::Authenticated {
                device_id: device_id@,
                session_token: session_token@,
            },
            ServerEvent::Message(m) => EventView::Message(m@),
            ServerEvent::Disconnected => EventView::Disconnected,
        }
    }
}

/// The kind of an event, for the history of an attempt.
pub enum EventKind {
    Authenticated,
    Message,
    Disconnected,
}

#[derive(Debug, Clone, Copy, PartialEq, Eq, Structural)]
pub enum ConnectionState {
    Disconnected,
    Connecting,
    Authenticating,
    Connected,
    Reconnecting,
}

/// What the transport has to do next.
#[derive(Debug)]
pub enum ConnAction {
    /// Write these bytes as one transport message.
    Send(Vec<u8>),
    /// Hand this event to the owner.
    Emit(ServerEvent),
}

pub enum ActionView {
    Send(Seq<u8>),
    Emit(EventView),
}

impl View for ConnAction {
    type V = ActionView;

    open spec fn view(&self) -> ActionView {
        match self {
            ConnAction::Send(bytes) => ActionView::Send(bytes@),
            ConnAction::Emit(event) => ActionView::Emit(event@),
        }
    }
}

/// What a heartbeat tick asks for.
#[derive(Debug)]
pub enum TickAction {
    /// The connector is not connected: nothing to do.
    Idle,
    /// Send this heartbeat.
    Send(Vec<u8>),
    /// No acknowledgement came in time: the attempt is over, emit this event.
    TimedOut(ServerEvent),
}

/// Why an authentication response did not lead to a connection.
#[derive(Debug)]
pub enum AuthError {
    /// The server refused; holds its reason, empty where it gave none.
    Rejected(String),
    /// No authentication was under way.
    OutOfSequence,
}

/// What a transport message means while the connector waits for the
/// authentication response.
#[derive(Debug)]
pub enum AuthStep {
    /// Not the response: keep waiting.
    Wait,
    /// The response; holds its JSON payload.
    Response(Vec<u8>),
}

/// The connector's state as a mathematical value.
pub struct ConnectorView {
    pub state: ConnectionState,
    /// Failed attempts in a row.
    pub attempt: u32,
    pub heartbeat_interval_secs: u64,
    /// When the last acknowledgement arrived, in milliseconds.
    pub last_pong_ms: u64,
    /// Bytes received and not yet decoded.
    pub buffered: Seq<u8>,
    /// The kinds of the events emitted since the current attempt began.
    pub events: Seq<EventKind>,
}

pub struct Connector {
    state: ConnectionState,
    attempt: u32,
    heartbeat_interval_secs: u64,
    last_pong_ms: u64,
    read_buf: FrameBuffer,
    events: Ghost<Seq<EventKind>>,
}

impl View for Connector {
    type V = ConnectorView;

    closed spec fn view(&self) -> ConnectorView {
        ConnectorView {
            state: self.state,
            attempt: self.attempt,
            heartbeat_interval_secs: self.heartbeat_interval_secs,
            last_pong_ms: self.last_pong_ms,
            buffered: self.read_buf@,
            events: self.events@,
        }
    }
}

/// In the history of an attempt, `Authenticated` stands first or nowhere, and
/// a message is never emitted before it.
pub open spec fn ordered_history(events: Seq<EventKind>) -> bool {
    &&& forall|i: int|
        0 <= i < events.len() && (#[trigger] events[i]) is Authenticated ==> i == 0
    &&& forall|i: int|
        0 <= i < events.len() && (#[trigger] events[i]) is Message ==> i > 0
            && events[0] is Authenticated
}

impl ConnectorView {
    pub open spec fn wf(self) -> bool {
        &&& ordered_history(self.events)
        &&& (self.state is Connecting || self.state is Authenticating) ==> self.events.len() == 0
        &&& self.state is Connected ==> self.events.len() > 0 && self.events[0] is Authenticated
    }
}

/// The actions that one inbound frame asks for: an acknowledgement for a
/// heartbeat, nothing for an acknowledgement, the frame itself as an event
/// for anything else.
pub open spec fn frame_actions(f: Frame) -> Seq<ActionView> {
    if f.header.msg_type == HEARTBEAT_ACK {
        Seq::empty()
    } else if f.header.msg_type == HEARTBEAT {
        seq![ActionView::Send(frame_of(HEARTBEAT_ACK, 0, 0, Seq::empty()).encoding())]
    } else {
        seq![ActionView::Emit(EventView::Message(f))]
    }
}

/// The actions that a run of inbound frames asks for, in order.
pub open spec fn inbound_actions(frames: Seq<Frame>) -> Seq<ActionView>
    decreases frames.len(),
{
    if frames.len() == 0 {
        Seq::empty()
    } else {
        inbound_actions(frames.drop_last()) + frame_actions(frames.last())
    }
}

/// The kinds of the events among `actions`, in order.
pub open spec fn emitted_kinds(actions: Seq<ActionView>) -> Seq<EventKind>
    decreases actions.len(),
{
    if actions.len() == 0 {
        Seq::empty()
    } else {
        let head = emitted_kinds(actions.drop_last());
        match actions.last() {
            ActionView::Emit(EventView::Authenticated { .. }) => head.push(EventKind::Authenticated),
            ActionView::Emit(EventView::Message(_)) => head.push(EventKind::Message),
            ActionView::Emit(EventView::Disconnected) => head.push(EventKind::Disconnected),
            ActionView::Send(_) => head,
        }
    }
}

/// Whether a heartbeat acknowledgement is among `frames`.
pub open spec fn has_pong(frames: Seq<Frame>) -> bool {
    exists|i: int| 0 <= i < frames.len() && (#[trigger] frames[i]).header.msg_type == HEARTBEAT_ACK
}

/// Whether the last acknowledgement is too old at `now_ms`.
pub open spec fn pong_overdue(interval_secs: u64, last_pong_ms: u64, now_ms: u64) -> bool {
    now_ms > last_pong_ms && now_ms - last_pong_ms > HEARTBEAT_TIMEOUT_FACTOR * 1000
        * interval_secs
}

pub open spec fn action_views(actions: Seq<ConnAction>) -> Seq<ActionView> {
    actions.map_values(|a: ConnAction| a@)
}

pub open spec fn next_attempt(attempt: u32) -> u32 {
    if attempt == u32::MAX {
        attempt
    } else {
        (attempt + 1) as u32
    }
}

/// The text of an optional string, empty where there is none.
pub open spec fn text_or_empty(s: Option<String>) -> Seq<char> {
    match s {
        Some(t) => t@,
        None => Seq::empty(),
    }
}

fn unwrap_or_empty(s: Option<String>) -> (t: String)
    ensures
        t@ == text_or_empty(s),
{
    match s {
        Some(t) => t,
        None => String::new(),
    }
}

/// The authentication request for `config` on this machine, or `None` where
/// the configuration holds no session token yet.
pub fn build_auth_request(
    config: &AgentConfig,
    os: &str,
    arch: &str,
    hostname: &str,
    agent_version: &str,
) -> (r: Option<AuthRequest>)
    ensures
        r is Some <==> config.session_token is Some,
        r matches Some(req) ==> {
            &&& req.token@ == config.session_token->0@
            &&& req.device_type@ == os@
            &&& req.agent_version@ == agent_version@
            &&& req.os@ == os@
            &&& req.arch@ == arch@
            &&& req.hostname@ == hostname@
        },
{
    match &config.session_token {
        None => None,
        Some(token) => Some(
            AuthRequest {
                token: token.clone(),
                device_type: String::from_str(os),
                agent_version: String::from_str(agent_version),
                os: String::from_str(os),
                arch: String::from_str(arch),
                hostname: String::from_str(hostname),
            },
        ),
    }
}

/// Reads one transport message during authentication: the payload of an
/// `AUTH_RESPONSE` frame at its start, or the advice to keep waiting.
pub fn auth_step(data: &[u8]) -> (step: AuthStep)
    ensures
        has_frame(data@) && first_frame(data@).header.msg_type == AUTH_RESPONSE ==> (step matches AuthStep::Response(
            p,
        ) && p@ == first_frame(data@).payload),
        !(has_frame(data@) && first_frame(data@).header.msg_type == AUTH_RESPONSE) ==> step is Wait,
{
    proof {
        crate::reassembly::lemma_declared_len_bounded(data@);
    }
    match Message::decode(data) {
        Ok(Some((msg, _))) => {
            if msg.header.msg_type == AUTH_RESPONSE {
                AuthStep::Response(msg.payload)
            } else {
                AuthStep::Wait
            }
        },
        _ => AuthStep::Wait,
    }
}

proof fn lemma_inbound_actions_push(frames: Seq<Frame>, f: Frame)
    ensures
        inbound_actions(frames.push(f)) == inbound_actions(frames) + frame_actions(f),
{
    assert(frames.push(f).drop_last() =~= frames);
}

proof fn lemma_has_pong_push(frames: Seq<Frame>, f: Frame)
    ensures
        has_pong(frames.push(f)) == (has_pong(frames) || f.header.msg_type == HEARTBEAT_ACK),
{
    let ext = frames.push(f);
    if has_pong(frames) {
        let i = choose|i: int| 0 <= i < frames.len() && (#[trigger] frames[i]).header.msg_type == HEARTBEAT_ACK;
        assert(ext[i].header.msg_type == HEARTBEAT_ACK);
    }
    if f.header.msg_type == HEARTBEAT_ACK {
        assert(ext[frames.len() as int].header.msg_type == HEARTBEAT_ACK);
    }
    if has_pong(ext) {
        let i = choose|i: int| 0 <= i < ext.len() && (#[trigger] ext[i]).header.msg_type == HEARTBEAT_ACK;
        if i < frames.len() {
            assert(frames[i].header.msg_type == HEARTBEAT_ACK);
        }
    }
}

/// The events of inbound frames are messages only, one for each frame that is
/// neither a heartbeat nor an acknowledgement.
pub proof fn lemma_inbound_kinds(frames: Seq<Frame>)
    ensures
        forall|i: int|
            0 <= i < emitted_kinds(inbound_actions(frames)).len() ==> (#[trigger] emitted_kinds(
                inbound_actions(frames),
            )[i]) is Message,
    decreases frames.len(),
{
    if frames.len() > 0 {
        let head = inbound_actions(frames.drop_last());
        let tail = frame_actions(frames.last());
        lemma_inbound_kinds(frames.drop_last());
        if tail.len() == 0 {
            assert(head + tail =~= head);
        } else {
            assert((head + tail).drop_last() =~= head);
            assert((head + tail).last() == tail[0]);
        }
    }
}

proof fn lemma_history_extends(events: Seq<EventKind>, more: Seq<EventKind>)
    requires
        ordered_history(events),
        events.len() > 0,
        events[0] is Authenticated,
        forall|i: int| 0 <= i < more.len() ==> (#[trigger] more[i]) is Message,
    ensures
        ordered_history(events + more),
        (events + more)[0] is Authenticated,
{
    let all = events + more;
    assert forall|i: int| 0 <= i < all.len() && all[i] is Authenticated implies i == 0 by {
        if i >= events.len() {
            assert(all[i] == more[i - events.len()]);
        }
    }
}

impl Connector {
    /// A connector that has not tried to connect yet.
    pub fn new(heartbeat_interval_secs: u64) -> (c: Self)
        ensures
            c@.wf(),
            c@.state == ConnectionState::Disconnected,
            c@.attempt == 0,
            c@.heartbeat_interval_secs == heartbeat_interval_secs,
            c@.last_pong_ms == 0,
            c@.buffered == Seq::<u8>::empty(),
            c@.events == Seq::<EventKind>::empty(),
    {
        Connector {
            state: ConnectionState::Disconnected,
            attempt: 0,
            heartbeat_interval_secs,
            last_pong_ms: 0,
            read_buf: FrameBuffer::new(),
            events: Ghost(Seq::empty()),
        }
    }

    pub fn state(&self) -> (s: ConnectionState)
        ensures
            s == self@.state,
    {
        self.state
    }

    /// The number of attempts that failed in a row.
    pub fn attempt(&self) -> (n: u32)
        ensures
            n == self@.attempt,
    {
        self.attempt
    }

    /// Begins an attempt: the connector forgets what the last one buffered and
    /// says how many milliseconds to wait before dialling.
    pub fn begin_attempt(&mut self, config: &AgentConfig, sample: u32) -> (delay_ms: u128)
        requires
            old(self)@.wf(),
        ensures
            final(self)@.wf(),
            final(self)@ == (ConnectorView {
                state: ConnectionState::Connecting,
                buffered: Seq::<u8>::empty(),
                events: Seq::<EventKind>::empty(),
                ..old(self)@
            }),
            delay_ms as nat == backoff_ms(
                config.reconnect_base_delay_secs as nat * 1000,
                config.reconnect_max_delay_secs as nat * 1000,
                old(self)@.attempt as nat,
                sample as nat,
            ),
            old(self)@.attempt == 0 ==> delay_ms == 0,
    {
        let delay = reconnect_delay(config, self.attempt, sample);
        self.state = ConnectionState::Connecting;
        self.read_buf.clear();
        self.events = Ghost(Seq::empty());
        delay
    }

    /// The transport is open: returns the encoded `AUTH_REQUEST` frame to
    /// send, built from the request's JSON payload. `None`, and no change,
    /// unless the connector is connecting.
    pub fn start_auth(&mut self, request_payload: Vec<u8>) -> (r: Option<Vec<u8>>)
        requires
            old(self)@.wf(),
        ensures
            final(self)@.wf(),
            old(self)@.state is Connecting ==> (r matches Some(bytes) && bytes@ == frame_of(
                AUTH_REQUEST,
                0,
                0,
                request_payload@,
            ).encoding() && final(self)@ == (ConnectorView {
                state: ConnectionState::Authenticating,
                ..old(self)@
            })),
            !(old(self)@.state is Connecting) ==> r is None && final(self)@ == old(self)@,
    {
        match self.state {
            ConnectionState::Connecting => {
                let msg = auth_request(request_payload);
                self.state = ConnectionState::Authenticating;
                Some(msg.encode())
            },
            _ => None,
        }
    }

    /// The authentication response has arrived. On success the connection is
    /// up, the acknowledgement clock starts at `now_ms`, and the one
    /// `Authenticated` event of this attempt comes back.
    pub fn on_auth_response(&mut self, response: AuthResponse, now_ms: u64) -> (r: Result<
        ServerEvent,
        AuthError,
    >)
        requires
            old(self)@.wf(),
        ensures
            final(self)@.wf(),
            old(self)@.state is Authenticating && response.success ==> (r matches Ok(e) && e@ == (
            EventView::Authenticated {
                device_id: text_or_empty(response.device_id),
                session_token: text_or_empty(response.session_token),
            }) && final(self)@ == (ConnectorView {
                state: ConnectionState::Connected,
                last_pong_ms: now_ms,
                events: seq![EventKind::Authenticated],
                ..old(self)@
            })),
            old(self)@.state is Authenticating && !response.success ==> (r matches Err(
                AuthError::Rejected(reason),
            ) && reason@ == text_or_empty(response.error) && final(self)@ == old(self)@),
            !(old(self)@.state is Authenticating) ==> (r matches Err(AuthError::OutOfSequence))
                && final(self)@ == old(self)@,
    {
        match self.state {
            ConnectionState::Authenticating => {
                if !response.success {
                    return Err(AuthError::Rejected(unwrap_or_empty(response.error)));
                }
                let device_id = unwrap_or_empty(response.device_id);
                let session_token = unwrap_or_empty(response.session_token);
                self.state = ConnectionState::Connected;
                self.last_pong_ms = now_ms;
                self.events = Ghost(Seq::empty().push(EventKind::Authenticated));
                Ok(ServerEvent::Authenticated { device_id, session_token })
            },
            _ => Err(AuthError::OutOfSequence),
        }
    }

    /// Bytes have arrived on an open connection. They join what was buffered;
    /// every whole frame is taken out and answered in order: a heartbeat with
    /// an acknowledgement to send, an acknowledgement by restarting the clock
    /// at `now_ms`, anything else with a `Message` event. While the connector
    /// is not connected the bytes are dropped.
    pub fn on_data(&mut self, data: &[u8], now_ms: u64) -> (actions: Vec<ConnAction>)
        requires
            old(self)@.wf(),
        ensures
            final(self)@.wf(),
            !(old(self)@.state is Connected) ==> actions@.len() == 0 && final(self)@ == old(self)@,
            old(self)@.state is Connected ==> {
                let frames = frames_in(old(self)@.buffered + data@);
                &&& action_views(actions@) == inbound_actions(frames)
                &&& final(self)@ == (ConnectorView {
                    buffered: rest_after_frames(old(self)@.buffered + data@),
                    last_pong_ms: if has_pong(frames) {
                        now_ms
                    } else {
                        old(self)@.last_pong_ms
                    },
                    events: old(self)@.events + emitted_kinds(inbound_actions(frames)),
                    ..old(self)@
                })
            },
    {
        let mut actions: Vec<ConnAction> = Vec::new();
        match self.state {
            ConnectionState::Connected => {},
            _ => {
                return actions;
            },
        }
        self.read_buf.extend(data);
        let ghost all = self.read_buf@;
        let ghost done: Seq<Frame> = Seq::empty();
        proof {
            assert(done + frames_in(all) =~= frames_in(all));
            assert(action_views(actions@) =~= inbound_actions(done));
        }
        loop
            invariant
                old(self)@.wf(),
                old(self)@.state is Connected,
                self.state is Connected,
                self.attempt == old(self).attempt,
                self.heartbeat_interval_secs == old(self).heartbeat_interval_secs,
                self.events@ == old(self).events@,
                all == old(self)@.buffered + data@,
                done + frames_in(self.read_buf@) == frames_in(all),
                rest_after_frames(self.read_buf@) == rest_after_frames(all),
                action_views(actions@) == inbound_actions(done),
                self.last_pong_ms == (if has_pong(done) {
                    now_ms
                } else {
                    old(self).last_pong_ms
                }),
            decreases self.read_buf@.len(),
        {
            let ghost before = self.read_buf@;
            let ghost views = action_views(actions@);
            match self.read_buf.next_frame() {
                Some(msg) => {
                    proof {
                        lemma_inbound_actions_push(done, msg@);
                        lemma_has_pong_push(done, msg@);
                        assert(done.push(msg@) + frames_in(self.read_buf@) =~= done + frames_in(
                            before,
                        ));
                    }
                    if msg.header.msg_type == HEARTBEAT_ACK {
                        self.last_pong_ms = now_ms;
                        proof {
                            assert(views + frame_actions(msg@) =~= views);
                        }
                    } else if msg.header.msg_type == HEARTBEAT {
                        let ack = heartbeat_ack();
                        let action = ConnAction::Send(ack.encode());
                        proof {
                            assert(action_views(actions@.push(action)) =~= views + frame_actions(
                                msg@,
                            ));
                        }
                        actions.push(action);
                    } else {
                        let action = ConnAction::Emit(ServerEvent::Message(msg));
                        proof {
                            assert(action_views(actions@.push(action)) =~= views + frame_actions(
                                msg@,
                            ));
                        }
                        actions.push(action);
                    }
                    proof {
                        done = done.push(msg@);
                    }
                },
                None => {
                    proof {
                        assert(frames_in(self.read_buf@) =~= Seq::<Frame>::empty());
                        assert(done + Seq::<Frame>::empty() =~= done);
                        lemma_inbound_kinds(done);
                        lemma_history_extends(
                            old(self).events@,
                            emitted_kinds(inbound_actions(done)),
                        );
                    }
                    self.events = Ghost(self.events@ + emitted_kinds(inbound_actions(done)));
                    return actions;
                },
            }
        }
    }

    /// The heartbeat timer has fired. While connected: if the last
    /// acknowledgement is older than three intervals the attempt ends as
    /// failed and `Disconnected` is to be emitted; otherwise a heartbeat is to
    /// be sent.
    pub fn on_heartbeat_tick(&mut self, now_ms: u64) -> (action: TickAction)
        requires
            old(self)@.wf(),
        ensures
            final(self)@.wf(),
            !(old(self)@.state is Connected) ==> action is Idle && final(self)@ == old(self)@,
            old(self)@.state is Connected && pong_overdue(
                old(self)@.heartbeat_interval_secs,
                old(self)@.last_pong_ms,
                now_ms,
            ) ==> (action matches TickAction::TimedOut(e) && e@ == EventView::Disconnected
                && final(self)@ == (ConnectorView {
                state: ConnectionState::Reconnecting,
                attempt: next_attempt(old(self)@.attempt),
                events: old(self)@.events.push(EventKind::Disconnected),
                ..old(self)@
            })),
            old(self)@.state is Connected && !pong_overdue(
                old(self)@.heartbeat_interval_secs,
                old(self)@.last_pong_ms,
                now_ms,
            ) ==> (action matches TickAction::Send(bytes) && bytes@ == frame_of(
                HEARTBEAT,
                0,
                0,
                Seq::empty(),
            ).encoding() && final(self)@ == old(self)@),
    {
        match self.state {
            ConnectionState::Connected => {},
            _ => {
                return TickAction::Idle;
            },
        }
        let elapsed: u64 = if now_ms > self.last_pong_ms {
            now_ms - self.last_pong_ms
        } else {
            0
        };
        let limit: u128 = 3000 * (self.heartbeat_interval_secs as u128);
        if elapsed as u128 > limit {
            TickAction::TimedOut(self.end_attempt(false))
        } else {
            TickAction::Send(heartbeat().encode())
        }
    }

    /// The attempt is over: cleanly (the server or the owner closed) or with
    /// an error. A clean end resets the count of failed attempts; an error
    /// adds one. The `Disconnected` event to emit comes back.
    pub fn end_attempt(&mut self, clean: bool) -> (event: ServerEvent)
        requires
            old(self)@.wf(),
        ensures
            final(self)@.wf(),
            event@ == EventView::Disconnected,
            final(self)@ == (ConnectorView {
                state: ConnectionState::Reconnecting,
                attempt: if clean {
                    0
                } else {
                    next_attempt(old(self)@.attempt)
                },
                events: old(self)@.events.push(EventKind::Disconnected),
                ..old(self)@
            }),
    {
        self.attempt = if clean {
            0
        } else if self.attempt == u32::MAX {
            self.attempt
        } else {
            self.attempt + 1
        };
        self.state = ConnectionState::Reconnecting;
        self.events = Ghost(self.events@.push(EventKind::Disconnected));
        ServerEvent::Disconnected
    }

    /// The owner no longer listens: the connector stops for good.
    pub fn shutdown(&mut self)
        requires
            old(self)@.wf(),
        ensures
            final(self)@.wf(),
            final(self)@ == (ConnectorView { state: ConnectionState::Disconnected, ..old(self)@ }),
    {
        self.state = ConnectionState::Disconnected;
    }
}

/// In every state that a connector can reach, `Authenticated` was emitted at
/// most once in the current attempt and before any other event but the
/// closing `Disconnected`, and no message was emitted without it.
pub proof fn lemma_authenticated_first(c: ConnectorView, i: int)
    requires
        c.wf(),
        0 <= i < c.events.len(),
    ensures
        c.events[i] is Authenticated ==> i == 0,
        c.events[i] is Message ==> i > 0 && c.events[0] is Authenticated,
{
}

} // verus!
