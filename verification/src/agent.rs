//! The owner of the connection: what each server event asks the agent to do.

use vstd::prelude::*;
use vstd::string::*;
use crate::config::AgentConfig;
use crate::connection::{EventView, ServerEvent};
use crate::protocol::{AgentInfo, Frame, Message};
use crate::router::{route, route_of, Route};

verus! {

/// What the host has to do, in order.
#[derive(Debug)]
pub enum AgentAction {
    /// Write the configuration to its file.
    SaveConfig,
    /// Send the `AGENT_INFO` frame.
    SendAgentInfo,
    /// Collect the telemetry and send it under this request id.
    SendTelemetry { request_id: u32 },
    /// Write these bytes to the helper's pipe as one message.
    ToHelper(Vec<u8>),
    /// Hand this frame to the session multiplexer.
    ToSessions(Message),
    /// Hand this frame to the file transfer engine.
    ToFiles(Message),
    /// Hand this frame to the command executor.
    RunCommand(Message),
    /// Close all sessions.
    CloseAllSessions,
    /// Leave the event loop.
    Stop,
}

pub enum AgentActionView {
    SaveConfig,
    SendAgentInfo,
    SendTelemetry { request_id: u32 },
    ToHelper(Seq<u8>),
    ToSessions(Frame),
    ToFiles(Frame),
    RunCommand(Frame),
    CloseAllSessions,
    Stop,
}

impl View for AgentAction {
    type V = AgentActionView;

    open spec fn view(&self) -> AgentActionView {
        match self {
            AgentAction::SaveConfig => AgentActionView::SaveConfig,
            AgentAction::SendAgentInfo => AgentActionView::SendAgentInfo,
            AgentAction::SendTelemetry { request_id } => AgentActionView::SendTelemetry {
                request_id: *request_id,
            },
            AgentAction::ToHelper(bytes) => AgentActionView::ToHelper(bytes@),
            AgentAction::ToSessions(m) => AgentActionView::ToSessions(m@),
            AgentAction::ToFiles(m) => AgentActionView::ToFiles(m@),
            AgentAction::RunCommand(m) => AgentActionView::RunCommand(m@),
            AgentAction::CloseAllSessions => AgentActionView::CloseAllSessions,
            AgentAction::Stop => AgentActionView::Stop,
        }
    }
}

pub open spec fn agent_action_views(actions: Seq<AgentAction>) -> Seq<AgentActionView> {
    actions.map_values(|a: AgentAction| a@)
}

/// The text of an optional string.
pub open spec fn token_text(s: Option<String>) -> Option<Seq<char>> {
    match s {
        Some(t) => Some(t@),
        None => None,
    }
}

/// The agent's state as a mathematical value.
pub struct AgentView {
    pub server_url: Seq<char>,
    pub enroll_token: Option<Seq<char>>,
    pub session_token: Option<Seq<char>>,
    pub device_id: Option<Seq<char>>,
    pub heartbeat_interval_secs: u64,
    pub telemetry_interval_secs: u64,
    pub reconnect_base_delay_secs: u64,
    pub reconnect_max_delay_secs: u64,
    pub authenticated: bool,
    pub no_desktop: bool,
    pub helper_attached: bool,
}

/// The state of an agent with this configuration.
pub open spec fn agent_view(
    config: AgentConfig,
    authenticated: bool,
    no_desktop: bool,
    helper_attached: bool,
) -> AgentView {
    AgentView {
        server_url: config.server_url@,
        enroll_token: token_text(config.enroll_token),
        session_token: token_text(config.session_token),
        device_id: token_text(config.device_id),
        heartbeat_interval_secs: config.heartbeat_interval_secs,
        telemetry_interval_secs: config.telemetry_interval_secs,
        reconnect_base_delay_secs: config.reconnect_base_delay_secs,
        reconnect_max_delay_secs: config.reconnect_max_delay_secs,
        authenticated,
        no_desktop,
        helper_attached,
    }
}

/// Whether an authentication brings a session token that is to be kept: one
/// that is not empty and differs from the configured one.
pub open spec fn token_refreshed(current: Option<Seq<char>>, token: Seq<char>) -> bool {
    token.len() > 0 && current != Some(token)
}

/// The actions for a frame from the server, by its route.
pub open spec fn frame_actions(frame: Frame, no_desktop: bool, helper_attached: bool) -> Seq<
    AgentActionView,
> {
    match route_of(frame.header.msg_type, no_desktop, helper_attached) {
        Route::Helper => seq![AgentActionView::ToHelper(frame.encoding())],
        Route::Session => seq![AgentActionView::ToSessions(frame)],
        Route::File => seq![AgentActionView::ToFiles(frame)],
        Route::Command => seq![AgentActionView::RunCommand(frame)],
        Route::Telemetry => seq![
            AgentActionView::SendTelemetry { request_id: frame.header.request_id },
        ],
        Route::Dropped => Seq::empty(),
    }
}

/// The actions for an event; `None` stands for the end of the event stream.
pub open spec fn event_actions(s: AgentView, event: Option<EventView>) -> Seq<AgentActionView> {
    match event {
        Some(EventView::Authenticated { device_id, session_token }) => {
            let announce = seq![
                AgentActionView::SendAgentInfo,
                AgentActionView::SendTelemetry { request_id: 0 },
            ];
            if token_refreshed(s.session_token, session_token) {
                seq![AgentActionView::SaveConfig] + announce
            } else {
                announce
            }
        },
        Some(EventView::Message(frame)) => frame_actions(frame, s.no_desktop, s.helper_attached),
        Some(EventView::Disconnected) => seq![AgentActionView::CloseAllSessions],
        None => seq![AgentActionView::CloseAllSessions, AgentActionView::Stop],
    }
}

/// The agent's state after an event.
pub open spec fn state_after(s: AgentView, event: Option<EventView>) -> AgentView {
    match event {
        Some(EventView::Authenticated { device_id, session_token }) => {
            if token_refreshed(s.session_token, session_token) {
                AgentView {
                    session_token: Some(session_token),
                    device_id: Some(device_id),
                    authenticated: true,
                    ..s
                }
            } else {
                AgentView { authenticated: true, ..s }
            }
        },
        Some(EventView::Message(_)) => s,
        Some(EventView::Disconnected) => AgentView { authenticated: false, ..s },
        None => s,
    }
}

/// The view of an optional event.
pub open spec fn event_view(event: Option<ServerEvent>) -> Option<EventView> {
    match event {
        Some(e) => Some(e@),
        None => None,
    }
}

/// The agent between the connection and its subsystems.
pub struct Agent {
    config: AgentConfig,
    authenticated: bool,
    no_desktop: bool,
    helper_attached: bool,
}

impl View for Agent {
    type V = AgentView;

    closed spec fn view(&self) -> AgentView {
        agent_view(self.config, self.authenticated, self.no_desktop, self.helper_attached)
    }
}

fn one(action: AgentAction) -> (out: Vec<AgentAction>)
    ensures
        agent_action_views(out@) == seq![action@],
{
    let mut out: Vec<AgentAction> = Vec::new();
    out.push(action);
    proof {
        assert(agent_action_views(out@) =~= seq![action@]);
    }
    out
}

impl Agent {
    /// An agent that is not authenticated yet. In no-desktop mode the session
    /// frames go to the helper.
    pub fn new(config: AgentConfig, no_desktop: bool) -> (a: Self)
        ensures
            a@ == agent_view(config, false, no_desktop, false),
    {
        Agent { config, authenticated: false, no_desktop, helper_attached: false }
    }

    /// The configuration, with the session token and the device id as the
    /// server last gave them.
    pub fn config(&self) -> (c: &AgentConfig)
        ensures
            agent_view(*c, self@.authenticated, self@.no_desktop, self@.helper_attached) == self@,
    {
        &self.config
    }

    pub fn is_authenticated(&self) -> (r: bool)
        ensures
            r == self@.authenticated,
    {
        self.authenticated
    }

    /// The helper's pipe is attached, or gone.
    pub fn set_helper_attached(&mut self, attached: bool)
        ensures
            final(self)@ == (AgentView { helper_attached: attached, ..old(self)@ }),
    {
        self.helper_attached = attached;
    }

    /// Serves one event of the connection; `None` is the end of the event
    /// stream.
    pub fn on_event(&mut self, event: Option<ServerEvent>) -> (out: Vec<AgentAction>)
        ensures
            agent_action_views(out@) == event_actions(old(self)@, event_view(event)),
            final(self)@ == state_after(old(self)@, event_view(event)),
    {
        match event {
            Some(ServerEvent::Authenticated { device_id, session_token }) => {
                self.authenticated = true;
                let mut out: Vec<AgentAction> = Vec::new();
                let same = match &self.config.session_token {
                    Some(current) => *current == session_token,
                    None => false,
                };
                if session_token.as_str().unicode_len() > 0 && !same {
                    self.config.session_token = Some(session_token);
                    self.config.device_id = Some(device_id);
                    out.push(AgentAction::SaveConfig);
                }
                out.push(AgentAction::SendAgentInfo);
                out.push(AgentAction::SendTelemetry { request_id: 0 });
                proof {
                    assert(agent_action_views(out@) =~= event_actions(
                        old(self)@,
                        event_view(event),
                    ));
                }
                out
            },
            Some(ServerEvent::Message(msg)) => {
                match route(msg.header.msg_type, self.no_desktop, self.helper_attached) {
                    Route::Helper => one(AgentAction::ToHelper(msg.encode())),
                    Route::Session => one(AgentAction::ToSessions(msg)),
                    Route::File => one(AgentAction::ToFiles(msg)),
                    Route::Command => one(AgentAction::RunCommand(msg)),
                    Route::Telemetry => one(
                        AgentAction::SendTelemetry { request_id: msg.header.request_id },
                    ),
                    Route::Dropped => {
                        let out: Vec<AgentAction> = Vec::new();
                        proof {
                            assert(agent_action_views(out@) =~= Seq::empty());
                        }
                        out
                    },
                }
            },
            Some(ServerEvent::Disconnected) => {
                self.authenticated = false;
                one(AgentAction::CloseAllSessions)
            },
            None => {
                let mut out: Vec<AgentAction> = Vec::new();
                out.push(AgentAction::CloseAllSessions);
                out.push(AgentAction::Stop);
                proof {
                    assert(agent_action_views(out@) =~= seq![
                        AgentActionView::CloseAllSessions,
                        AgentActionView::Stop,
                    ]);
                }
                out
            },
        }
    }

    /// The telemetry timer has fired: telemetry goes out while authenticated.
    pub fn on_telemetry_tick(&self) -> (out: Vec<AgentAction>)
        ensures
            agent_action_views(out@) == (if self@.authenticated {
                seq![AgentActionView::SendTelemetry { request_id: 0 }]
            } else {
                Seq::empty()
            }),
    {
        if self.authenticated {
            one(AgentAction::SendTelemetry { request_id: 0 })
        } else {
            let out: Vec<AgentAction> = Vec::new();
            proof {
                assert(agent_action_views(out@) =~= Seq::empty());
            }
            out
        }
    }

    /// The user interrupted the agent: the sessions are closed and the event
    /// loop is left.
    pub fn on_interrupt(&self) -> (out: Vec<AgentAction>)
        ensures
            agent_action_views(out@) == seq![
                AgentActionView::CloseAllSessions,
                AgentActionView::Stop,
            ],
    {
        let mut out: Vec<AgentAction> = Vec::new();
        out.push(AgentAction::CloseAllSessions);
        out.push(AgentAction::Stop);
        proof {
            assert(agent_action_views(out@) =~= seq![
                AgentActionView::CloseAllSessions,
                AgentActionView::Stop,
            ]);
        }
        out
    }
}

/// What the agent tells the server about itself after authenticating.
pub fn build_agent_info(
    hostname: &str,
    os_name: &str,
    os_version: &str,
    arch: &str,
    agent_version: &str,
) -> (info: AgentInfo)
    ensures
        info.hostname@ == hostname@,
        info.os_name@ == os_name@,
        info.os_version@ == os_version@,
        info.arch@ == arch@,
        info.agent_version@ == agent_version@,
{
    AgentInfo {
        hostname: String::from_str(hostname),
        os_name: String::from_str(os_name),
        os_version: String::from_str(os_version),
        arch: String::from_str(arch),
        agent_version: String::from_str(agent_version),
    }
}

} // verus!
