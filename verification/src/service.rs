//! Registration of the agent as a system service: what is written and asked
//! of the service manager, and how its answers are read.

use vstd::prelude::*;
use vstd::string::*;
use crate::platform::PlatformError;
use crate::scan::{find, lemma_position_of, matches_from, position_of};
use crate::text::{str_eq, trim, trimmed};

verus! {

/// The name of the service and of its user under systemd.
pub const SERVICE_NAME: &'static str = "android-remote-agent";

/// Where the unit file of the service lies.
pub const SERVICE_UNIT_PATH: &'static str = "/etc/systemd/system/android-remote-agent.service";

/// The name of the service on Windows.
pub const WINDOWS_SERVICE_NAME: &'static str = "AndroidRemoteAgent";

/// The display name of the service on Windows.
pub const WINDOWS_DISPLAY_NAME: &'static str = "Android Remote Agent";

/// What installs, starts and stops the agent's service.
pub trait ServiceManager {
    /// Install the agent as a system service
    fn install(&self) -> Result<(), PlatformError>;

    /// Uninstall the agent system service
    fn uninstall(&self) -> Result<(), PlatformError>;

    /// Start the service
    fn start(&self) -> Result<(), PlatformError>;

    /// Stop the service
    fn stop(&self) -> Result<(), PlatformError>;

    /// Check if the service is currently running
    fn is_running(&self) -> Result<bool, PlatformError>;
}

/// What a service is started with.
#[derive(Debug, Clone)]
pub struct ServiceSettings {
    /// Path to the agent binary
    pub binary_path: String,
    /// Server URL for the command line
    pub server_url: String,
    /// Optional path to the config file
    pub config_path: Option<String>,
}

/// The systemd service manager's settings.
#[derive(Debug, Clone)]
pub struct SystemdServiceManager {
    pub settings: ServiceSettings,
}

/// The Windows service manager's settings.
#[derive(Debug, Clone)]
pub struct WindowsServiceManager {
    pub settings: ServiceSettings,
}

/// The option that names the config file, or nothing.
pub open spec fn config_option(config_path: Option<String>) -> Seq<char> {
    match config_path {
        Some(path) => " --config-path "@ + path@,
        None => Seq::empty(),
    }
}

/// The unit file of the service.
pub open spec fn unit_file_of(s: ServiceSettings) -> Seq<char> {
    "[Unit]\nDescription=Android Remote Agent\nAfter=network-online.target\nWants=network-online.target\n\n[Service]\nType=simple\nUser=android-remote-agent\nExecStart="@
        + s.binary_path@ + " --server-url "@ + s.server_url@ + config_option(s.config_path)
        + "\nRestart=always\nRestartSec=10\nEnvironment=AGENT_LOG_LEVEL=info\n\n# Security hardening\nNoNewPrivileges=true\nProtectSystem=strict\nProtectHome=true\nReadWritePaths=/opt/android-remote-agent\nPrivateTmp=true\n\n[Install]\nWantedBy=multi-user.target\n"@
}

/// The quoted option that names the config file on Windows, or nothing.
pub open spec fn quoted_config_option(config_path: Option<String>) -> Seq<char> {
    match config_path {
        Some(path) => " --config-path \""@ + path@ + "\""@,
        None => Seq::empty(),
    }
}

/// The command line that the Windows service runs.
pub open spec fn service_command_of(s: ServiceSettings) -> Seq<char> {
    "\""@ + s.binary_path@ + "\" --server-url \""@ + s.server_url@ + "\""@ + quoted_config_option(
        s.config_path,
    )
}

impl SystemdServiceManager {
    pub fn new(binary_path: String, server_url: String, config_path: Option<String>) -> (m: Self)
        ensures
            m.settings.binary_path@ == binary_path@,
            m.settings.server_url@ == server_url@,
            m.settings.config_path == config_path,
    {
        Self { settings: ServiceSettings { binary_path, server_url, config_path } }
    }

    /// The unit file that registers the service.
    pub fn generate_unit_file(&self) -> (unit: String)
        ensures
            unit@ == unit_file_of(self.settings),
    {
        let mut unit = String::from_str(
            "[Unit]\nDescription=Android Remote Agent\nAfter=network-online.target\nWants=network-online.target\n\n[Service]\nType=simple\nUser=android-remote-agent\nExecStart=",
        );
        unit.append(self.settings.binary_path.as_str());
        unit.append(" --server-url ");
        unit.append(self.settings.server_url.as_str());
        let ghost head = unit@;
        match &self.settings.config_path {
            Some(path) => {
                unit.append(" --config-path ");
                unit.append(path.as_str());
                proof {
                    assert(unit@ =~= head + config_option(self.settings.config_path));
                }
            },
            None => {
                proof {
                    assert(unit@ =~= head + config_option(self.settings.config_path));
                }
            },
        }
        unit.append(
            "\nRestart=always\nRestartSec=10\nEnvironment=AGENT_LOG_LEVEL=info\n\n# Security hardening\nNoNewPrivileges=true\nProtectSystem=strict\nProtectHome=true\nReadWritePaths=/opt/android-remote-agent\nPrivateTmp=true\n\n[Install]\nWantedBy=multi-user.target\n",
        );
        unit
    }

    /// Whether the service manager's answer says that the service runs: the
    /// answer, without the white space around it, is `active`.
    pub fn is_active_answer(answer: &str) -> (r: bool)
        ensures
            r == (trimmed(answer@) == "active"@),
    {
        str_eq(trim(answer), "active")
    }
}

/// Whether `pat` stands somewhere in `s`.
pub open spec fn holds_text(s: Seq<char>, pat: Seq<char>) -> bool {
    position_of(s, pat, 0) is Some
}

/// What `holds_text` means: the pattern stands at some position.
pub proof fn lemma_holds_text(s: Seq<char>, pat: Seq<char>)
    ensures
        holds_text(s, pat) <==> exists|i: int| 0 <= i <= s.len() && matches_from(s, pat, i),
{
    lemma_position_of(s, pat, 0);
    if holds_text(s, pat) {
        assert(matches_from(s, pat, position_of(s, pat, 0)->0));
    }
}

fn contains_text(s: &str, pat: &str) -> (r: bool)
    ensures
        r == holds_text(s@, pat@),
{
    find(s, pat, 0).is_some()
}

impl WindowsServiceManager {
    /// Whether the service manager's complaint about a stop only says that
    /// the service was not running.
    pub fn already_stopped(complaint: &str) -> (r: bool)
        ensures
            r == (holds_text(complaint@, "has not been started"@) || holds_text(
                complaint@,
                "1062"@,
            )),
    {
        contains_text(complaint, "has not been started") || contains_text(complaint, "1062")
    }

    /// Whether the service manager's answer to a query says that the service
    /// runs.
    pub fn is_running_answer(answer: &str) -> (r: bool)
        ensures
            r == holds_text(answer@, "RUNNING"@),
    {
        contains_text(answer, "RUNNING")
    }

    pub fn new(binary_path: String, server_url: String, config_path: Option<String>) -> (m: Self)
        ensures
            m.settings.binary_path@ == binary_path@,
            m.settings.server_url@ == server_url@,
            m.settings.config_path == config_path,
    {
        Self { settings: ServiceSettings { binary_path, server_url, config_path } }
    }

    /// The command line that the service runs.
    pub fn service_command(&self) -> (line: String)
        ensures
            line@ == service_command_of(self.settings),
    {
        let mut line = String::from_str("\"");
        line.append(self.settings.binary_path.as_str());
        line.append("\" --server-url \"");
        line.append(self.settings.server_url.as_str());
        line.append("\"");
        let ghost head = line@;
        match &self.settings.config_path {
            Some(path) => {
                line.append(" --config-path \"");
                line.append(path.as_str());
                line.append("\"");
                proof {
                    assert(line@ =~= head + quoted_config_option(self.settings.config_path));
                }
            },
            None => {
                proof {
                    assert(line@ =~= head + quoted_config_option(self.settings.config_path));
                }
            },
        }
        line
    }
}

} // verus!
