//! The helper in the user's session: how the service names the pipe, starts
//! and watches the helper, relays its frames, and how the helper reaches the
//! pipe.

use vstd::prelude::*;
use vstd::string::*;
use crate::config::AgentConfig;
use crate::ipc::{pipe_name_for_device, pipe_name_of};
use crate::protocol::{first_frame, has_frame, Message};
use crate::reassembly::lemma_declared_len_bounded;
use crate::text::concat2;

verus! {

/// How often the service looks after the helper, in seconds.
pub const HELPER_CHECK_INTERVAL_SECS: u64 = 5;

/// How often the helper tries to reach the pipe.
pub const PIPE_CONNECT_ATTEMPTS: u32 = 10;

/// How long the helper waits between two tries, in milliseconds.
pub const PIPE_CONNECT_DELAY_MS: u64 = 500;

/// The session id that stands for "no console session".
pub const NO_CONSOLE_SESSION: u32 = 0xFFFF_FFFF;

/// Whether a process in this session is a system service without a desktop.
pub fn is_system_service_context(session_id: u32) -> (r: bool)
    ensures
        r == (session_id == 0),
{
    session_id == 0
}

/// The console session that the platform reports, if there is one.
pub fn active_console_session(reported: u32) -> (r: Option<u32>)
    ensures
        r == (if reported == NO_CONSOLE_SESSION {
            None::<u32>
        } else {
            Some(reported)
        }),
{
    if reported == NO_CONSOLE_SESSION {
        None
    } else {
        Some(reported)
    }
}

/// The device id that names the pipe: the configured one, or `default`.
pub open spec fn pipe_device_id(device_id: Option<String>) -> Seq<char> {
    match device_id {
        Some(id) => id@,
        None => "default"@,
    }
}

/// The name of the pipe between the service and its helper.
pub fn helper_pipe_name(config: &AgentConfig) -> (name: String)
    ensures
        name@ == pipe_name_of(pipe_device_id(config.device_id)),
{
    match &config.device_id {
        Some(id) => pipe_name_for_device(id.as_str()),
        None => pipe_name_for_device("default"),
    }
}

/// The command line that starts the helper.
pub open spec fn helper_command_line_of(exe_path: Seq<char>, pipe_name: Seq<char>) -> Seq<char> {
    "\""@ + exe_path + "\" --helper-mode --pipe-name \""@ + pipe_name + "\" --log-level info"@
}

/// The command line that starts the helper from the executable at `exe_path`
/// on the pipe `pipe_name`.
pub fn helper_command_line(exe_path: &str, pipe_name: &str) -> (line: String)
    ensures
        line@ == helper_command_line_of(exe_path@, pipe_name@),
{
    let mut line = String::from_str("\"");
    line.append(exe_path);
    line.append("\" --helper-mode --pipe-name \"");
    line.append(pipe_name);
    line.append("\" --log-level info");
    line
}

/// What the supervisor does at a check.
#[derive(Debug, Clone, Copy, PartialEq, Eq, Structural)]
pub enum SupervisorAction {
    /// The helper lives: nothing.
    Nothing,
    /// The helper is dead: start it in this session.
    Respawn { session_id: u32 },
    /// The helper is dead and no user session is there: look again later.
    WaitForSession,
}

/// The supervisor's decision at a check, from whether the helper lives and
/// which console session is active.
pub fn supervise(alive: bool, console_session: Option<u32>) -> (action: SupervisorAction)
    ensures
        action == (if alive {
            SupervisorAction::Nothing
        } else {
            match console_session {
                Some(session_id) => SupervisorAction::Respawn { session_id },
                None => SupervisorAction::WaitForSession,
            }
        }),
{
    if alive {
        SupervisorAction::Nothing
    } else {
        match console_session {
            Some(session_id) => SupervisorAction::Respawn { session_id },
            None => SupervisorAction::WaitForSession,
        }
    }
}

/// What the relay does with a message from the helper's pipe.
#[derive(Debug)]
pub enum RelayAction {
    /// Send these bytes to the server.
    Forward(Vec<u8>),
    /// The message holds no whole frame: it is dropped.
    Incomplete,
}

/// The relay's decision for one message from the pipe: the frame at its
/// start goes to the server, encoded anew.
pub fn relay_from_helper(raw: &[u8]) -> (action: RelayAction)
    ensures
        has_frame(raw@) ==> (action matches RelayAction::Forward(bytes) && bytes@ == first_frame(
            raw@,
        ).encoding()),
        !has_frame(raw@) ==> action is Incomplete,
{
    proof {
        lemma_declared_len_bounded(raw@);
    }
    match Message::decode(raw) {
        Ok(Some((msg, _))) => RelayAction::Forward(msg.encode()),
        _ => RelayAction::Incomplete,
    }
}

/// What the helper does after a failed try to reach the pipe.
#[derive(Debug, Clone, Copy, PartialEq, Eq, Structural)]
pub enum RetryStep {
    /// Wait this long, then try again.
    Retry { delay_ms: u64 },
    /// Give up.
    GiveUp,
}

/// The helper's decision after try number `attempt` (counted from 1) has
/// failed: it gives up after the last of `max_retries` tries.
pub fn connect_retry(attempt: u32, max_retries: u32, delay_ms: u64) -> (step: RetryStep)
    ensures
        step == (if attempt >= max_retries {
            RetryStep::GiveUp
        } else {
            RetryStep::Retry { delay_ms }
        }),
{
    if attempt >= max_retries {
        RetryStep::GiveUp
    } else {
        RetryStep::Retry { delay_ms }
    }
}

} // verus!
