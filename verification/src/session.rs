//! The session multiplexer: which channels carry a live shell or screen
//! session, and what each session frame asks the host to do. The host owns
//! the queues and tasks; this table decides.

use std::collections::HashSet;
use vstd::prelude::*;
use vstd::string::*;
use crate::desktop::{ConfigView, DesktopConfig};
use crate::protocol::{
    DesktopOpenRequest, Frame, Message, TerminalOpenRequest, DESKTOP_CLOSE, DESKTOP_INPUT,
    DESKTOP_OPEN, DESKTOP_QUALITY, TERMINAL_CLOSE, TERMINAL_DATA, TERMINAL_OPEN, TERMINAL_RESIZE,
};
use crate::wire::{read_u16_le, u16_from_le};

verus! {

broadcast use vstd::std_specs::hash::group_hash_axioms;

/// Bound of a session's data queue.
pub const DATA_QUEUE_BOUND: usize = 256;

/// Bound of a terminal session's resize queue.
pub const RESIZE_QUEUE_BOUND: usize = 16;

/// Bound of a desktop session's quality queue.
pub const QUALITY_QUEUE_BOUND: usize = 8;

#[derive(Debug, Clone, Copy, PartialEq, Eq, Structural)]
pub enum SessionKind {
    Shell,
    Screen,
}

/// What the host has to do for a session. Closing a session means dropping
/// its queues, upon which its task tears the shell or the capture down.
#[derive(Debug)]
pub enum SessionAction {
    CloseTerminal { channel: u16 },
    OpenTerminal { channel: u16, shell: Option<String>, cols: u16, rows: u16 },
    TerminalInput { channel: u16, data: Vec<u8> },
    TerminalResize { channel: u16, cols: u16, rows: u16 },
    CloseDesktop { channel: u16 },
    OpenDesktop { channel: u16, config: DesktopConfig },
    DesktopInput { channel: u16, data: Vec<u8> },
    DesktopQuality { channel: u16, config: DesktopConfig },
}

pub enum SessionActionView {
    CloseTerminal { channel: u16 },
    OpenTerminal { channel: u16, shell: Option<Seq<char>>, cols: u16, rows: u16 },
    TerminalInput { channel: u16, data: Seq<u8> },
    TerminalResize { channel: u16, cols: u16, rows: u16 },
    CloseDesktop { channel: u16 },
    OpenDesktop { channel: u16, config: ConfigView },
    DesktopInput { channel: u16, data: Seq<u8> },
    DesktopQuality { channel: u16, config: ConfigView },
}

/// The text of an optional string.
pub open spec fn opt_text(s: Option<String>) -> Option<Seq<char>> {
    match s {
        Some(t) => Some(t@),
        None => None,
    }
}

impl View for SessionAction {
    type V = SessionActionView;

    open spec fn view(&self) -> SessionActionView {
        match self {
            SessionAction::CloseTerminal { channel } => SessionActionView::CloseTerminal {
                channel: *channel,
            },
            SessionAction::OpenTerminal { channel, shell, cols, rows } => SessionActionView::OpenTerminal {
                channel: *channel,
                shell: opt_text(*shell),
                cols: *cols,
                rows: *rows,
            },
            SessionAction::TerminalInput { channel, data } => SessionActionView::TerminalInput {
                channel: *channel,
                data: data@,
            },
            SessionAction::TerminalResize { channel, cols, rows } => SessionActionView::TerminalResize {
                channel: *channel,
                cols: *cols,
                rows: *rows,
            },
            SessionAction::CloseDesktop { channel } => SessionActionView::CloseDesktop {
                channel: *channel,
            },
            SessionAction::OpenDesktop { channel, config } => SessionActionView::OpenDesktop {
                channel: *channel,
                config: config@,
            },
            SessionAction::DesktopInput { channel, data } => SessionActionView::DesktopInput {
                channel: *channel,
                data: data@,
            },
            SessionAction::DesktopQuality { channel, config } => SessionActionView::DesktopQuality {
                channel: *channel,
                config: config@,
            },
        }
    }
}

pub open spec fn action_views(actions: Seq<SessionAction>) -> Seq<SessionActionView> {
    actions.map_values(|a: SessionAction| a@)
}

/// Why a session frame could not be served.
#[derive(Debug, Clone, Copy, PartialEq, Eq, Structural)]
pub enum SessionError {
    /// The payload of a `TERMINAL_OPEN` is no terminal request.
    BadTerminalOpen,
    /// The payload of a `DESKTOP_OPEN` is no desktop request.
    BadDesktopOpen,
}

/// The JSON payload of a session frame, read by the host: the request of a
/// `TERMINAL_OPEN`, the request of a `DESKTOP_OPEN` or `DESKTOP_QUALITY`, or
/// nothing where the frame carries no such payload or it could not be read.
#[derive(Debug)]
pub enum OpenPayload {
    Nothing,
    Terminal(TerminalOpenRequest),
    Desktop(DesktopOpenRequest),
}

/// A terminal request as a mathematical value.
pub struct TerminalRequestView {
    pub shell: Option<Seq<char>>,
    pub cols: u16,
    pub rows: u16,
}

/// The terminal request in a payload, if it holds one.
pub open spec fn terminal_request(open: OpenPayload) -> Option<TerminalRequestView> {
    match open {
        OpenPayload::Terminal(req) => Some(
            TerminalRequestView { shell: opt_text(req.shell), cols: req.cols, rows: req.rows },
        ),
        _ => None,
    }
}

/// The session configuration in a payload, if it holds a desktop request.
pub open spec fn desktop_request(open: OpenPayload) -> Option<ConfigView> {
    match open {
        OpenPayload::Desktop(req) => Some(
            ConfigView { quality: req.quality, fps: req.fps, encoding: req.encoding@ },
        ),
        _ => None,
    }
}

/// What serving a frame led to: the actions for the host, in order, and the
/// error where the frame could not be served.
#[derive(Debug)]
pub struct SessionOutcome {
    pub actions: Vec<SessionAction>,
    pub error: Option<SessionError>,
}

/// The live sessions as a mathematical value: the channels with a shell and
/// the channels with a screen session.
pub struct SessionsView {
    pub terminals: Set<u16>,
    pub desktops: Set<u16>,
}

/// The result of one step as a mathematical value.
pub struct StepView {
    pub next: SessionsView,
    pub actions: Seq<SessionActionView>,
    pub error: Option<SessionError>,
}

/// The closing of the session on `channel` if there is one.
pub open spec fn closing(live: Set<u16>, channel: u16, desktop: bool) -> Seq<SessionActionView> {
    if live.contains(channel) {
        if desktop {
            seq![SessionActionView::CloseDesktop { channel }]
        } else {
            seq![SessionActionView::CloseTerminal { channel }]
        }
    } else {
        Seq::empty()
    }
}

/// Opening a terminal: a live shell on the channel is closed first; then the
/// new one is opened, unless the request could not be read.
pub open spec fn open_terminal_step(s: SessionsView, channel: u16, request: Option<TerminalRequestView>) -> StepView {
    match request {
        Some(req) => StepView {
            next: SessionsView { terminals: s.terminals.insert(channel), ..s },
            actions: closing(s.terminals, channel, false).push(
                SessionActionView::OpenTerminal {
                    channel,
                    shell: req.shell,
                    cols: req.cols,
                    rows: req.rows,
                },
            ),
            error: None,
        },
        None => StepView {
            next: SessionsView { terminals: s.terminals.remove(channel), ..s },
            actions: closing(s.terminals, channel, false),
            error: Some(SessionError::BadTerminalOpen),
        },
    }
}

/// Opening a desktop session, in the same way.
pub open spec fn open_desktop_step(s: SessionsView, channel: u16, request: Option<ConfigView>) -> StepView {
    match request {
        Some(config) => StepView {
            next: SessionsView { desktops: s.desktops.insert(channel), ..s },
            actions: closing(s.desktops, channel, true).push(
                SessionActionView::OpenDesktop { channel, config },
            ),
            error: None,
        },
        None => StepView {
            next: SessionsView { desktops: s.desktops.remove(channel), ..s },
            actions: closing(s.desktops, channel, true),
            error: Some(SessionError::BadDesktopOpen),
        },
    }
}

pub open spec fn close_terminal_step(s: SessionsView, channel: u16) -> StepView {
    StepView {
        next: SessionsView { terminals: s.terminals.remove(channel), ..s },
        actions: closing(s.terminals, channel, false),
        error: None,
    }
}

pub open spec fn close_desktop_step(s: SessionsView, channel: u16) -> StepView {
    StepView {
        next: SessionsView { desktops: s.desktops.remove(channel), ..s },
        actions: closing(s.desktops, channel, true),
        error: None,
    }
}

/// Input for a live shell goes to it; input for no shell is dropped.
pub open spec fn terminal_input_step(s: SessionsView, channel: u16, data: Seq<u8>) -> StepView {
    StepView {
        next: s,
        actions: if s.terminals.contains(channel) {
            seq![SessionActionView::TerminalInput { channel, data }]
        } else {
            Seq::empty()
        },
        error: None,
    }
}

/// A resize of at least four bytes for a live shell goes to it.
pub open spec fn terminal_resize_step(s: SessionsView, channel: u16, payload: Seq<u8>) -> StepView {
    StepView {
        next: s,
        actions: if payload.len() >= 4 && s.terminals.contains(channel) {
            seq![
                SessionActionView::TerminalResize {
                    channel,
                    cols: u16_from_le(payload[0], payload[1]),
                    rows: u16_from_le(payload[2], payload[3]),
                },
            ]
        } else {
            Seq::empty()
        },
        error: None,
    }
}

pub open spec fn desktop_input_step(s: SessionsView, channel: u16, data: Seq<u8>) -> StepView {
    StepView {
        next: s,
        actions: if s.desktops.contains(channel) {
            seq![SessionActionView::DesktopInput { channel, data }]
        } else {
            Seq::empty()
        },
        error: None,
    }
}

/// A quality change that could be read, for a live screen session, goes to it.
pub open spec fn desktop_quality_step(s: SessionsView, channel: u16, request: Option<ConfigView>) -> StepView {
    StepView {
        next: s,
        actions: if request is Some && s.desktops.contains(channel) {
            seq![SessionActionView::DesktopQuality { channel, config: request->0 }]
        } else {
            Seq::empty()
        },
        error: None,
    }
}

/// What a frame asks for, by its type. Frames of other types ask for nothing.
pub open spec fn session_step(s: SessionsView, frame: Frame, open: OpenPayload) -> StepView {
    let t = frame.header.msg_type;
    let channel = frame.header.channel;
    if t == TERMINAL_OPEN {
        open_terminal_step(s, channel, terminal_request(open))
    } else if t == TERMINAL_CLOSE {
        close_terminal_step(s, channel)
    } else if t == TERMINAL_DATA {
        terminal_input_step(s, channel, frame.payload)
    } else if t == TERMINAL_RESIZE {
        terminal_resize_step(s, channel, frame.payload)
    } else if t == DESKTOP_OPEN {
        open_desktop_step(s, channel, desktop_request(open))
    } else if t == DESKTOP_CLOSE {
        close_desktop_step(s, channel)
    } else if t == DESKTOP_INPUT {
        desktop_input_step(s, channel, frame.payload)
    } else if t == DESKTOP_QUALITY {
        desktop_quality_step(s, channel, desktop_request(open))
    } else {
        StepView { next: s, actions: Seq::empty(), error: None }
    }
}

/// The closings of the live channels below `n`, in ascending order.
pub open spec fn closes_below(live: Set<u16>, n: int, desktop: bool) -> Seq<SessionActionView>
    decreases n,
{
    if n <= 0 {
        Seq::empty()
    } else {
        closes_below(live, n - 1, desktop) + closing(live, (n - 1) as u16, desktop)
    }
}

/// Whether the outcome is that of the step.
pub open spec fn outcome_is(out: SessionOutcome, step: StepView) -> bool {
    action_views(out.actions@) == step.actions && out.error == step.error
}

/// Manages the active sessions on their channels.
pub struct SessionManager {
    terminals: HashSet<u16>,
    desktops: HashSet<u16>,
}

impl View for SessionManager {
    type V = SessionsView;

    closed spec fn view(&self) -> SessionsView {
        SessionsView { terminals: self.terminals@, desktops: self.desktops@ }
    }
}

fn config_of(req: DesktopOpenRequest) -> (c: DesktopConfig)
    ensures
        c@ == (ConfigView { quality: req.quality, fps: req.fps, encoding: req.encoding@ }),
{
    DesktopConfig { quality: req.quality, fps: req.fps, encoding: req.encoding }
}

impl SessionManager {
    /// A manager without sessions.
    pub fn new() -> (m: Self)
        ensures
            m@.terminals == Set::<u16>::empty(),
            m@.desktops == Set::<u16>::empty(),
    {
        SessionManager { terminals: HashSet::new(), desktops: HashSet::new() }
    }

    /// Whether a shell is live on `channel`.
    pub fn has_terminal(&self, channel: u16) -> (r: bool)
        ensures
            r == self@.terminals.contains(channel),
    {
        self.terminals.contains(&channel)
    }

    /// Whether a screen session is live on `channel`.
    pub fn has_desktop(&self, channel: u16) -> (r: bool)
        ensures
            r == self@.desktops.contains(channel),
    {
        self.desktops.contains(&channel)
    }

    /// Serves one session frame. `open` is the frame's JSON payload as the
    /// host has read it.
    pub fn handle_message(&mut self, msg: Message, open: OpenPayload) -> (out: SessionOutcome)
        ensures
            outcome_is(out, session_step(old(self)@, msg@, open)),
            final(self)@ == session_step(old(self)@, msg@, open).next,
    {
        let channel = msg.header.channel;
        let t = msg.header.msg_type;
        if t == TERMINAL_OPEN {
            let request = match open {
                OpenPayload::Terminal(req) => Some(req),
                _ => None,
            };
            self.open_terminal(channel, request)
        } else if t == TERMINAL_CLOSE {
            self.close_terminal(channel)
        } else if t == TERMINAL_DATA {
            self.terminal_stdin(channel, msg.payload)
        } else if t == TERMINAL_RESIZE {
            self.terminal_resize(channel, msg.payload.as_slice())
        } else if t == DESKTOP_OPEN {
            let request = match open {
                OpenPayload::Desktop(req) => Some(req),
                _ => None,
            };
            self.open_desktop(channel, request)
        } else if t == DESKTOP_CLOSE {
            self.close_desktop(channel)
        } else if t == DESKTOP_INPUT {
            self.desktop_input(channel, msg.payload)
        } else if t == DESKTOP_QUALITY {
            let request = match open {
                OpenPayload::Desktop(req) => Some(req),
                _ => None,
            };
            self.desktop_quality(channel, request)
        } else {
            let out = SessionOutcome { actions: Vec::new(), error: None };
            proof {
                assert(action_views(out.actions@) =~= Seq::empty());
            }
            out
        }
    }

    /// Opens a shell on `channel`. A shell that is live there is closed
    /// first. A request that could not be read opens nothing.
    pub fn open_terminal(&mut self, channel: u16, request: Option<TerminalOpenRequest>) -> (out:
        SessionOutcome)
        ensures
            outcome_is(
                out,
                open_terminal_step(
                    old(self)@,
                    channel,
                    terminal_request(
                        match request {
                            Some(req) => OpenPayload::Terminal(req),
                            None => OpenPayload::Nothing,
                        },
                    ),
                ),
            ),
            final(self)@ == open_terminal_step(
                old(self)@,
                channel,
                terminal_request(
                    match request {
                        Some(req) => OpenPayload::Terminal(req),
                        None => OpenPayload::Nothing,
                    },
                ),
            ).next,
    {
        let mut actions: Vec<SessionAction> = Vec::new();
        if self.terminals.remove(&channel) {
            actions.push(SessionAction::CloseTerminal { channel });
        }
        proof {
            assert(action_views(actions@) =~= closing(old(self)@.terminals, channel, false));
        }
        match request {
            Some(req) => {
                let ghost before = action_views(actions@);
                let action = SessionAction::OpenTerminal {
                    channel,
                    shell: req.shell,
                    cols: req.cols,
                    rows: req.rows,
                };
                actions.push(action);
                self.terminals.insert(channel);
                proof {
                    assert(action_views(actions@) =~= before.push(action@));
                    assert(self.terminals@ =~= old(self)@.terminals.insert(channel));
                }
                SessionOutcome { actions, error: None }
            },
            None => SessionOutcome { actions, error: Some(SessionError::BadTerminalOpen) },
        }
    }

    /// Closes the shell on `channel`, if there is one.
    pub fn close_terminal(&mut self, channel: u16) -> (out: SessionOutcome)
        ensures
            outcome_is(out, close_terminal_step(old(self)@, channel)),
            final(self)@ == close_terminal_step(old(self)@, channel).next,
    {
        let mut actions: Vec<SessionAction> = Vec::new();
        if self.terminals.remove(&channel) {
            actions.push(SessionAction::CloseTerminal { channel });
        }
        proof {
            assert(action_views(actions@) =~= closing(old(self)@.terminals, channel, false));
        }
        SessionOutcome { actions, error: None }
    }

    /// Passes input on to the shell on `channel`, if there is one.
    pub fn terminal_stdin(&mut self, channel: u16, data: Vec<u8>) -> (out: SessionOutcome)
        ensures
            outcome_is(out, terminal_input_step(old(self)@, channel, data@)),
            final(self)@ == old(self)@,
    {
        let mut actions: Vec<SessionAction> = Vec::new();
        if self.terminals.contains(&channel) {
            actions.push(SessionAction::TerminalInput { channel, data });
        }
        proof {
            assert(action_views(actions@) =~= terminal_input_step(
                old(self)@,
                channel,
                data@,
            ).actions);
        }
        SessionOutcome { actions, error: None }
    }

    /// Passes a resize on to the shell on `channel`, if there is one. The
    /// payload holds the columns and the rows, 16 bits each.
    pub fn terminal_resize(&mut self, channel: u16, payload: &[u8]) -> (out: SessionOutcome)
        ensures
            outcome_is(out, terminal_resize_step(old(self)@, channel, payload@)),
            final(self)@ == old(self)@,
    {
        let mut actions: Vec<SessionAction> = Vec::new();
        if payload.len() >= 4 {
            let cols = read_u16_le(payload, 0);
            let rows = read_u16_le(payload, 2);
            if self.terminals.contains(&channel) {
                actions.push(SessionAction::TerminalResize { channel, cols, rows });
            }
        }
        proof {
            assert(action_views(actions@) =~= terminal_resize_step(
                old(self)@,
                channel,
                payload@,
            ).actions);
        }
        SessionOutcome { actions, error: None }
    }

    /// Opens a screen session on `channel`. One that is live there is closed
    /// first. A request that could not be read opens nothing.
    pub fn open_desktop(&mut self, channel: u16, request: Option<DesktopOpenRequest>) -> (out:
        SessionOutcome)
        ensures
            outcome_is(
                out,
                open_desktop_step(
                    old(self)@,
                    channel,
                    desktop_request(
                        match request {
                            Some(req) => OpenPayload::Desktop(req),
                            None => OpenPayload::Nothing,
                        },
                    ),
                ),
            ),
            final(self)@ == open_desktop_step(
                old(self)@,
                channel,
                desktop_request(
                    match request {
                        Some(req) => OpenPayload::Desktop(req),
                        None => OpenPayload::Nothing,
                    },
                ),
            ).next,
    {
        let mut actions: Vec<SessionAction> = Vec::new();
        if self.desktops.remove(&channel) {
            actions.push(SessionAction::CloseDesktop { channel });
        }
        proof {
            assert(action_views(actions@) =~= closing(old(self)@.desktops, channel, true));
        }
        match request {
            Some(req) => {
                let ghost before = action_views(actions@);
                let action = SessionAction::OpenDesktop { channel, config: config_of(req) };
                actions.push(action);
                self.desktops.insert(channel);
                proof {
                    assert(action_views(actions@) =~= before.push(action@));
                    assert(self.desktops@ =~= old(self)@.desktops.insert(channel));
                }
                SessionOutcome { actions, error: None }
            },
            None => SessionOutcome { actions, error: Some(SessionError::BadDesktopOpen) },
        }
    }

    /// Closes the screen session on `channel`, if there is one.
    pub fn close_desktop(&mut self, channel: u16) -> (out: SessionOutcome)
        ensures
            outcome_is(out, close_desktop_step(old(self)@, channel)),
            final(self)@ == close_desktop_step(old(self)@, channel).next,
    {
        let mut actions: Vec<SessionAction> = Vec::new();
        if self.desktops.remove(&channel) {
            actions.push(SessionAction::CloseDesktop { channel });
        }
        proof {
            assert(action_views(actions@) =~= closing(old(self)@.desktops, channel, true));
        }
        SessionOutcome { actions, error: None }
    }

    /// Passes input on to the screen session on `channel`, if there is one.
    pub fn desktop_input(&mut self, channel: u16, data: Vec<u8>) -> (out: SessionOutcome)
        ensures
            outcome_is(out, desktop_input_step(old(self)@, channel, data@)),
            final(self)@ == old(self)@,
    {
        let mut actions: Vec<SessionAction> = Vec::new();
        if self.desktops.contains(&channel) {
            actions.push(SessionAction::DesktopInput { channel, data });
        }
        proof {
            assert(action_views(actions@) =~= desktop_input_step(
                old(self)@,
                channel,
                data@,
            ).actions);
        }
        SessionOutcome { actions, error: None }
    }

    /// Passes a quality change on to the screen session on `channel`, if
    /// there is one and the request could be read.
    pub fn desktop_quality(&mut self, channel: u16, request: Option<DesktopOpenRequest>) -> (out:
        SessionOutcome)
        ensures
            outcome_is(
                out,
                desktop_quality_step(
                    old(self)@,
                    channel,
                    desktop_request(
                        match request {
                            Some(req) => OpenPayload::Desktop(req),
                            None => OpenPayload::Nothing,
                        },
                    ),
                ),
            ),
            final(self)@ == old(self)@,
    {
        let mut actions: Vec<SessionAction> = Vec::new();
        match request {
            Some(req) => {
                if self.desktops.contains(&channel) {
                    let action = SessionAction::DesktopQuality { channel, config: config_of(req) };
                    actions.push(action);
                    proof {
                        assert(action_views(actions@) =~= seq![action@]);
                    }
                } else {
                    proof {
                        assert(action_views(actions@) =~= Seq::empty());
                    }
                }
            },
            None => {
                proof {
                    assert(action_views(actions@) =~= Seq::empty());
                }
            },
        }
        SessionOutcome { actions, error: None }
    }

    /// The session on `channel` has ended by itself: its channel is free again.
    pub fn session_ended(&mut self, kind: SessionKind, channel: u16)
        ensures
            kind is Shell ==> final(self)@ == (SessionsView {
                terminals: old(self)@.terminals.remove(channel),
                ..old(self)@
            }),
            kind is Screen ==> final(self)@ == (SessionsView {
                desktops: old(self)@.desktops.remove(channel),
                ..old(self)@
            }),
    {
        match kind {
            SessionKind::Shell => {
                self.terminals.remove(&channel);
            },
            SessionKind::Screen => {
                self.desktops.remove(&channel);
            },
        }
    }

    /// Whether any session is live.
    pub fn has_active_sessions(&self) -> (r: bool)
        ensures
            r == !(self@.terminals.is_empty() && self@.desktops.is_empty()),
    {
        !self.terminals.is_empty() || !self.desktops.is_empty()
    }

    /// Closes all sessions: the shells in ascending order of their channels,
    /// then the screen sessions in the same order.
    pub fn close_all(&mut self) -> (actions: Vec<SessionAction>)
        ensures
            action_views(actions@) == closes_below(old(self)@.terminals, 65536, false)
                + closes_below(old(self)@.desktops, 65536, true),
            final(self)@.terminals == Set::<u16>::empty(),
            final(self)@.desktops == Set::<u16>::empty(),
    {
        let mut actions: Vec<SessionAction> = Vec::new();
        let ghost shells = closes_below(self.terminals@, 65536, false);
        let mut c: u32 = 0;
        proof {
            assert(action_views(actions@) =~= closes_below(self.terminals@, 0, false));
        }
        while c < 65536
            invariant
                c <= 65536,
                self.terminals@ == old(self)@.terminals,
                self.desktops@ == old(self)@.desktops,
                action_views(actions@) == closes_below(self.terminals@, c as int, false),
            decreases 65536 - c,
        {
            let channel: u16 = c as u16;
            let ghost before = action_views(actions@);
            if self.terminals.contains(&channel) {
                let action = SessionAction::CloseTerminal { channel };
                actions.push(action);
                proof {
                    assert(action_views(actions@) =~= before + seq![action@]);
                }
            } else {
                proof {
                    assert(before + Seq::<SessionActionView>::empty() =~= before);
                }
            }
            c += 1;
        }
        let mut d: u32 = 0;
        proof {
            assert(shells + closes_below(self.desktops@, 0, true) =~= shells);
        }
        while d < 65536
            invariant
                d <= 65536,
                self.terminals@ == old(self)@.terminals,
                self.desktops@ == old(self)@.desktops,
                shells == closes_below(self.terminals@, 65536, false),
                action_views(actions@) == shells + closes_below(self.desktops@, d as int, true),
            decreases 65536 - d,
        {
            let channel: u16 = d as u16;
            let ghost before = closes_below(self.desktops@, d as int, true);
            if self.desktops.contains(&channel) {
                let action = SessionAction::CloseDesktop { channel };
                actions.push(action);
                proof {
                    assert(action_views(actions@) =~= (shells + before) + seq![action@]);
                    assert((shells + before) + seq![action@] =~= shells + (before + seq![action@]));
                }
            } else {
                proof {
                    assert(before + Seq::<SessionActionView>::empty() =~= before);
                }
            }
            d += 1;
        }
        self.terminals.clear();
        self.desktops.clear();
        actions
    }
}

/// A second open on a live channel tears the old session down before the new
/// one starts: the closing stands first, the opening second, and nothing else.
pub proof fn lemma_reopen_closes_first(s: SessionsView, channel: u16, request: TerminalRequestView)
    requires
        s.terminals.contains(channel),
    ensures
        open_terminal_step(s, channel, Some(request)).actions == seq![
            SessionActionView::CloseTerminal { channel },
            SessionActionView::OpenTerminal {
                channel,
                shell: request.shell,
                cols: request.cols,
                rows: request.rows,
            },
        ],
        open_terminal_step(s, channel, Some(request)).next.terminals.contains(channel),
{
    assert(open_terminal_step(s, channel, Some(request)).actions =~= seq![
        SessionActionView::CloseTerminal { channel },
        SessionActionView::OpenTerminal {
            channel,
            shell: request.shell,
            cols: request.cols,
            rows: request.rows,
        },
    ]);
}

} // verus!
