//! One shell session as a state machine: what to do with the shell's output,
//! with input and resizes from the server, and when the session ends.

use vstd::prelude::*;
use crate::protocol::{frame_of, terminal_data, Frame, Message, TERMINAL_CLOSE, TERMINAL_DATA};

verus! {

#[derive(Debug, Clone, Copy, PartialEq, Eq, Structural)]
pub enum ShellState {
    Spawning,
    Running,
    Ending,
}

/// What happened to a running shell session.
#[derive(Debug)]
pub enum TerminalEvent {
    /// The shell wrote these bytes; none where the read woke up for nothing.
    Output(Vec<u8>),
    /// Reading the shell's output failed: the shell is gone.
    OutputEnded,
    /// The server sent these bytes for the shell's input.
    Input(Vec<u8>),
    /// The input queue was closed: the session is to end.
    InputClosed,
    /// The server asked for a new size.
    Resize { cols: u16, rows: u16 },
    /// The resize queue was closed, which ends nothing.
    ResizeClosed,
}

pub enum TerminalEventView {
    Output(Seq<u8>),
    OutputEnded,
    Input(Seq<u8>),
    InputClosed,
    Resize { cols: u16, rows: u16 },
    ResizeClosed,
}

impl View for TerminalEvent {
    type V = TerminalEventView;

    open spec fn view(&self) -> TerminalEventView {
        match self {
            TerminalEvent::Output(data) => TerminalEventView::Output(data@),
            TerminalEvent::OutputEnded => TerminalEventView::OutputEnded,
            TerminalEvent::Input(data) => TerminalEventView::Input(data@),
            TerminalEvent::InputClosed => TerminalEventView::InputClosed,
            TerminalEvent::Resize { cols, rows } => TerminalEventView::Resize {
                cols: *cols,
                rows: *rows,
            },
            TerminalEvent::ResizeClosed => TerminalEventView::ResizeClosed,
        }
    }
}

/// What the host has to do in answer to an event.
#[derive(Debug)]
pub enum TerminalAction {
    /// Nothing, and the host waits for the next event at once.
    Skip,
    /// Nothing.
    Nothing,
    /// Send this message to the server.
    Send(Message),
    /// Write these bytes to the shell's input.
    Write(Vec<u8>),
    /// Resize the shell.
    Resize { cols: u16, rows: u16 },
}

pub enum TerminalActionView {
    Skip,
    Nothing,
    Send(Frame),
    Write(Seq<u8>),
    Resize { cols: u16, rows: u16 },
}

impl View for TerminalAction {
    type V = TerminalActionView;

    open spec fn view(&self) -> TerminalActionView {
        match self {
            TerminalAction::Skip => TerminalActionView::Skip,
            TerminalAction::Nothing => TerminalActionView::Nothing,
            TerminalAction::Send(m) => TerminalActionView::Send(m@),
            TerminalAction::Write(data) => TerminalActionView::Write(data@),
            TerminalAction::Resize { cols, rows } => TerminalActionView::Resize {
                cols: *cols,
                rows: *rows,
            },
        }
    }
}

/// How the host fared with an action.
#[derive(Debug, Clone, Copy, PartialEq, Eq, Structural)]
pub enum ActionResult {
    Done,
    SendFailed,
    WriteFailed,
    ResizeFailed,
}

/// The session's state as a mathematical value.
pub struct TerminalView {
    pub channel: u16,
    pub state: ShellState,
}

/// One shell session on its channel.
pub struct TerminalSession {
    channel: u16,
    state: ShellState,
}

impl View for TerminalSession {
    type V = TerminalView;

    closed spec fn view(&self) -> TerminalView {
        TerminalView { channel: self.channel, state: self.state }
    }
}

/// The action that an event asks of a running session on `channel`.
pub open spec fn terminal_action(channel: u16, event: TerminalEventView) -> TerminalActionView {
    match event {
        TerminalEventView::Output(data) => if data.len() == 0 {
            TerminalActionView::Skip
        } else {
            TerminalActionView::Send(frame_of(TERMINAL_DATA, channel, 0, data))
        },
        TerminalEventView::OutputEnded => TerminalActionView::Nothing,
        TerminalEventView::Input(data) => TerminalActionView::Write(data),
        TerminalEventView::InputClosed => TerminalActionView::Nothing,
        TerminalEventView::Resize { cols, rows } => TerminalActionView::Resize { cols, rows },
        TerminalEventView::ResizeClosed => TerminalActionView::Nothing,
    }
}

/// Whether an event ends a running session.
pub open spec fn ends_session(event: TerminalEventView) -> bool {
    event is OutputEnded || event is InputClosed
}

impl TerminalSession {
    /// A session whose shell is being spawned.
    pub fn new(channel: u16) -> (s: Self)
        ensures
            s@ == (TerminalView { channel, state: ShellState::Spawning }),
    {
        TerminalSession { channel, state: ShellState::Spawning }
    }

    pub fn channel(&self) -> (c: u16)
        ensures
            c == self@.channel,
    {
        self.channel
    }

    pub fn state(&self) -> (s: ShellState)
        ensures
            s == self@.state,
    {
        self.state
    }

    /// The spawn has finished: the session runs, or ends where the spawn failed.
    pub fn on_spawned(&mut self, ok: bool)
        ensures
            final(self)@.channel == old(self)@.channel,
            final(self)@.state == (if old(self)@.state is Spawning {
                if ok {
                    ShellState::Running
                } else {
                    ShellState::Ending
                }
            } else {
                old(self)@.state
            }),
    {
        match self.state {
            ShellState::Spawning => {
                self.state = if ok {
                    ShellState::Running
                } else {
                    ShellState::Ending
                };
            },
            _ => {},
        }
    }

    /// Answers an event. While the session runs: output goes to the server as
    /// `TERMINAL_DATA` on the session's channel, input to the shell, a resize
    /// to the shell; the end of the output or of the input queue ends the
    /// session. A session that does not run asks for nothing.
    pub fn on_event(&mut self, event: TerminalEvent) -> (action: TerminalAction)
        ensures
            final(self)@.channel == old(self)@.channel,
            old(self)@.state is Running ==> action@ == terminal_action(old(self)@.channel, event@)
                && final(self)@.state == (if ends_session(event@) {
                ShellState::Ending
            } else {
                ShellState::Running
            }),
            !(old(self)@.state is Running) ==> action@ == TerminalActionView::Nothing
                && final(self)@ == old(self)@,
            action matches TerminalAction::Send(m) ==> m@.header.channel == old(self)@.channel
                && m@.header.msg_type == TERMINAL_DATA,
    {
        match self.state {
            ShellState::Running => {},
            _ => {
                return TerminalAction::Nothing;
            },
        }
        match event {
            TerminalEvent::Output(data) => {
                if data.len() == 0 {
                    TerminalAction::Skip
                } else {
                    TerminalAction::Send(terminal_data(self.channel, data))
                }
            },
            TerminalEvent::OutputEnded => {
                self.state = ShellState::Ending;
                TerminalAction::Nothing
            },
            TerminalEvent::Input(data) => TerminalAction::Write(data),
            TerminalEvent::InputClosed => {
                self.state = ShellState::Ending;
                TerminalAction::Nothing
            },
            TerminalEvent::Resize { cols, rows } => TerminalAction::Resize { cols, rows },
            TerminalEvent::ResizeClosed => TerminalAction::Nothing,
        }
    }

    /// The host has carried an action out. A running session ends where a
    /// message could not be sent, the shell's input could not be written, or
    /// the shell's process is gone; a failed resize ends nothing.
    pub fn on_action_done(&mut self, result: ActionResult, alive: bool)
        ensures
            final(self)@.channel == old(self)@.channel,
            final(self)@.state == (if old(self)@.state is Running && (result is SendFailed
                || result is WriteFailed || !alive) {
                ShellState::Ending
            } else {
                old(self)@.state
            }),
    {
        match self.state {
            ShellState::Running => {
                let failed = match result {
                    ActionResult::SendFailed => true,
                    ActionResult::WriteFailed => true,
                    _ => false,
                };
                if failed || !alive {
                    self.state = ShellState::Ending;
                }
            },
            _ => {},
        }
    }

    /// The `TERMINAL_CLOSE` that tells the server that the session is over:
    /// owed once the session has ended, and not before.
    pub fn closing_frame(&self) -> (m: Option<Message>)
        ensures
            self@.state is Ending ==> (m matches Some(close) && close@ == frame_of(
                TERMINAL_CLOSE,
                self@.channel,
                0,
                Seq::empty(),
            )),
            !(self@.state is Ending) ==> m is None,
    {
        match self.state {
            ShellState::Ending => Some(
                Message::session(TERMINAL_CLOSE, self.channel, 0, Vec::new()),
            ),
            _ => None,
        }
    }
}

/// Every message that a shell session produces is on the session's own
/// channel: output on channel `c` never appears on another channel.
pub proof fn lemma_terminal_frames_keep_channel(channel: u16, event: TerminalEventView)
    ensures
        terminal_action(channel, event) matches TerminalActionView::Send(f) ==> f.header.channel
            == channel && f.header.msg_type == TERMINAL_DATA,
{
}

} // verus!
