//! The agent's configuration and the addresses derived from it.

use vstd::prelude::*;
use vstd::string::*;
use crate::text::{concat2, concat3, replace, replace_all, starts_with, trim_end, trim_end_of};

verus! {

#[derive(Debug, Clone)]
pub struct AgentConfig {
    /// Server URL (e.g., wss://server:7899)
    pub server_url: String,
    /// Enrollment token for first-time registration
    pub enroll_token: Option<String>,
    /// Session token (set after successful enrollment or authentication)
    pub session_token: Option<String>,
    /// Device ID assigned by the server
    pub device_id: Option<String>,
    /// Heartbeat interval in seconds
    pub heartbeat_interval_secs: u64,
    /// Telemetry interval in seconds
    pub telemetry_interval_secs: u64,
    /// Reconnect base delay in seconds
    pub reconnect_base_delay_secs: u64,
    /// Reconnect max delay in seconds
    pub reconnect_max_delay_secs: u64,
}

pub fn default_heartbeat_interval() -> (secs: u64)
    ensures
        secs == 30,
{
    30
}

pub fn default_telemetry_interval() -> (secs: u64)
    ensures
        secs == 60,
{
    60
}

pub fn default_reconnect_base_delay() -> (secs: u64)
    ensures
        secs == 1,
{
    1
}

pub fn default_reconnect_max_delay() -> (secs: u64)
    ensures
        secs == 60,
{
    60
}

impl Default for AgentConfig {
    fn default() -> (c: Self)
        ensures
            c.server_url@ == Seq::<char>::empty(),
            c.enroll_token is None,
            c.session_token is None,
            c.device_id is None,
            c.heartbeat_interval_secs == 30,
            c.telemetry_interval_secs == 60,
            c.reconnect_base_delay_secs == 1,
            c.reconnect_max_delay_secs == 60,
    {
        Self {
            server_url: String::new(),
            enroll_token: None,
            session_token: None,
            device_id: None,
            heartbeat_interval_secs: default_heartbeat_interval(),
            telemetry_interval_secs: default_telemetry_interval(),
            reconnect_base_delay_secs: default_reconnect_base_delay(),
            reconnect_max_delay_secs: default_reconnect_max_delay(),
        }
    }
}

/// The relay address for a server address: trailing slashes removed, an
/// `http(s)` scheme at the start turned into `ws(s)`, and `/relay` appended.
pub open spec fn relay_url_of(server: Seq<char>) -> Seq<char> {
    let base = trim_end_of(server, '/');
    let ws = if "https://"@.is_prefix_of(base) {
        "wss://"@ + base.skip(8)
    } else if "http://"@.is_prefix_of(base) {
        "ws://"@ + base.skip(7)
    } else {
        base
    };
    ws + "/relay"@
}

/// The enrollment address for a server address: every `wss://` turned into
/// `https://`, then every `ws://` into `http://`, trailing slashes removed,
/// and `/api/enroll/device` appended.
pub open spec fn enroll_url_of(server: Seq<char>) -> Seq<char> {
    let http = replace_all(replace_all(server, "wss://"@, "https://"@), "ws://"@, "http://"@);
    trim_end_of(http, '/') + "/api/enroll/device"@
}

impl AgentConfig {
    /// The relay WebSocket URL.
    pub fn relay_url(&self) -> (url: String)
        ensures
            url@ == relay_url_of(self.server_url@),
    {
        proof {
            reveal_strlit("https://");
            reveal_strlit("http://");
        }
        let base = trim_end(self.server_url.as_str(), '/');
        let n = base.unicode_len();
        if starts_with(base, "https://") {
            proof {
                assert(base@.subrange(8, n as int) =~= base@.skip(8));
            }
            concat3("wss://", base.substring_char(8, n), "/relay")
        } else if starts_with(base, "http://") {
            proof {
                assert(base@.subrange(7, n as int) =~= base@.skip(7));
            }
            concat3("ws://", base.substring_char(7, n), "/relay")
        } else {
            concat2(base, "/relay")
        }
    }

    /// The enrollment HTTP URL.
    pub fn enroll_url(&self) -> (url: String)
        ensures
            url@ == enroll_url_of(self.server_url@),
    {
        let secure = replace(self.server_url.as_str(), "wss://", "https://");
        let plain = replace(secure.as_str(), "ws://", "http://");
        let base = trim_end(plain.as_str(), '/');
        concat2(base, "/api/enroll/device")
    }
}

/// Why the agent cannot start.
#[derive(Debug, Clone, Copy, PartialEq, Eq, Structural)]
pub enum StartupError {
    /// No server address, neither given nor configured.
    MissingServerUrl,
    /// Neither a session token nor an enrollment token.
    MissingTokens,
}

/// What the agent does first.
#[derive(Debug, Clone, Copy, PartialEq, Eq, Structural)]
pub enum StartupStep {
    /// Enroll with the enrollment token to get a session token.
    Enroll,
    /// Connect with the session token.
    Run,
}

impl AgentConfig {
    /// Takes over what the command line gives: it wins over the file.
    pub fn apply_overrides(&mut self, server_url: Option<String>, enroll_token: Option<String>)
        ensures
            final(self).server_url@ == (match server_url {
                Some(url) => url@,
                None => old(self).server_url@,
            }),
            final(self).enroll_token == (match enroll_token {
                Some(token) => Some(token),
                None => old(self).enroll_token,
            }),
            final(self).session_token == old(self).session_token,
            final(self).device_id == old(self).device_id,
            final(self).heartbeat_interval_secs == old(self).heartbeat_interval_secs,
            final(self).telemetry_interval_secs == old(self).telemetry_interval_secs,
            final(self).reconnect_base_delay_secs == old(self).reconnect_base_delay_secs,
            final(self).reconnect_max_delay_secs == old(self).reconnect_max_delay_secs,
    {
        match server_url {
            Some(url) => {
                self.server_url = url;
            },
            None => {},
        }
        match enroll_token {
            Some(token) => {
                self.enroll_token = Some(token);
            },
            None => {},
        }
    }

    /// What the agent does first with this configuration: it needs a server
    /// address, and enrolls where it has no session token yet.
    pub fn startup_step(&self) -> (r: Result<StartupStep, StartupError>)
        ensures
            r == (if self.server_url@.len() == 0 {
                Err::<StartupStep, StartupError>(StartupError::MissingServerUrl)
            } else if self.session_token is Some {
                Ok(StartupStep::Run)
            } else if self.enroll_token is Some {
                Ok(StartupStep::Enroll)
            } else {
                Err(StartupError::MissingTokens)
            }),
    {
        if self.server_url.as_str().unicode_len() == 0 {
            Err(StartupError::MissingServerUrl)
        } else if self.session_token.is_some() {
            Ok(StartupStep::Run)
        } else if self.enroll_token.is_some() {
            Ok(StartupStep::Enroll)
        } else {
            Err(StartupError::MissingTokens)
        }
    }

    /// The enrollment succeeded: the device id and the session token are
    /// kept, the enrollment token is used up.
    pub fn enrolled(&mut self, device_id: String, session_token: String)
        ensures
            final(self).device_id == Some(device_id),
            final(self).session_token == Some(session_token),
            final(self).enroll_token is None,
            final(self).server_url == old(self).server_url,
            final(self).heartbeat_interval_secs == old(self).heartbeat_interval_secs,
            final(self).telemetry_interval_secs == old(self).telemetry_interval_secs,
            final(self).reconnect_base_delay_secs == old(self).reconnect_base_delay_secs,
            final(self).reconnect_max_delay_secs == old(self).reconnect_max_delay_secs,
    {
        self.device_id = Some(device_id);
        self.session_token = Some(session_token);
        self.enroll_token = None;
    }
}

} // verus!
