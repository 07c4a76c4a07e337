//! Installation: the checks on what the installer is given, and its
//! decisions before anything is written.

use vstd::prelude::*;
use vstd::string::*;
use crate::text::{concat3, contains_char, starts_with, trim, trimmed};

verus! {

/// Where the agent is installed on Linux.
pub const DEFAULT_INSTALL_DIR_LINUX: &'static str = "/opt/android-remote-agent";

/// Where the agent is installed on Windows.
pub const DEFAULT_INSTALL_DIR_WINDOWS: &'static str = "C:\\Program Files\\AndroidRemoteAgent";

/// The name of the agent's executable.
pub const BINARY_NAME: &'static str = "android-remote-agent";

/// The name of the agent's executable on Windows.
pub const BINARY_NAME_WINDOWS: &'static str = "android-remote-agent.exe";

/// Why an installation does not start.
#[derive(Debug, Clone, Copy, PartialEq, Eq, Structural)]
pub enum InstallError {
    EmptyUrl,
    BadScheme,
    BadUrlCharacters,
    EmptyToken,
    TokenNotAlphanumeric,
    MissingServerUrl,
    MissingEnrollToken,
    NotElevated,
}

/// What the installer works with.
#[derive(Debug, Clone)]
pub struct InstallConfig {
    pub server_url: String,
    pub enroll_token: String,
    pub install_dir: String,
    pub install_service: bool,
    pub start_service: bool,
}

/// What the install dialog collects.
#[derive(Debug, Clone)]
pub struct InstallParams {
    pub server_url: String,
    pub enroll_token: String,
    pub install_service: bool,
    pub start_service: bool,
}

/// Whether a text starts with one of the schemes that a server address may have.
pub open spec fn has_server_scheme(url: Seq<char>) -> bool {
    "http://"@.is_prefix_of(url) || "https://"@.is_prefix_of(url) || "ws://"@.is_prefix_of(url)
        || "wss://"@.is_prefix_of(url)
}

/// Whether a character could break out of a service configuration or a shell
/// command line.
pub open spec fn is_unsafe_char(c: char) -> bool {
    c == '"' || c == '\'' || c == '\n' || c == '\r' || c == ';' || c == '&' || c == '|' || c == '`'
        || c == '$' || c == '\\'
}

/// Whether a text holds a character that could break out.
pub open spec fn has_unsafe_char(s: Seq<char>) -> bool {
    exists|i: int| 0 <= i < s.len() && is_unsafe_char(#[trigger] s[i])
}

/// What is wrong with a server address, if anything: it is judged without
/// the white space around it.
pub open spec fn server_url_fault(url: Seq<char>) -> Option<InstallError> {
    let u = trimmed(url);
    if u.len() == 0 {
        Some(InstallError::EmptyUrl)
    } else if !has_server_scheme(u) {
        Some(InstallError::BadScheme)
    } else if has_unsafe_char(u) {
        Some(InstallError::BadUrlCharacters)
    } else {
        None
    }
}

/// Whether a character is an ASCII letter or digit.
pub open spec fn is_ascii_alnum(c: char) -> bool {
    ('0' <= c && c <= '9') || ('a' <= c && c <= 'z') || ('A' <= c && c <= 'Z')
}

/// What is wrong with an enrollment token, if anything.
pub open spec fn enroll_token_fault(token: Seq<char>) -> Option<InstallError> {
    let t = trimmed(token);
    if t.len() == 0 {
        Some(InstallError::EmptyToken)
    } else if !(forall|i: int| 0 <= i < t.len() ==> is_ascii_alnum(#[trigger] t[i])) {
        Some(InstallError::TokenNotAlphanumeric)
    } else {
        None
    }
}

/// The result that tells a fault, or that there is none.
pub open spec fn fault_result(fault: Option<InstallError>) -> Result<(), InstallError> {
    match fault {
        Some(e) => Err(e),
        None => Ok(()),
    }
}

fn holds_unsafe_char(s: &str) -> (r: bool)
    ensures
        r == has_unsafe_char(s@),
{
    let n = s.unicode_len();
    let mut i: usize = 0;
    while i < n
        invariant
            i <= n,
            n == s@.len(),
            forall|j: int| 0 <= j < i ==> !is_unsafe_char(#[trigger] s@[j]),
        decreases n - i,
    {
        let c = s.get_char(i);
        if c == '"' || c == '\'' || c == '\n' || c == '\r' || c == ';' || c == '&' || c == '|'
            || c == '`' || c == '$' || c == '\\' {
            return true;
        }
        i += 1;
    }
    false
}

/// Validates a server URL, so that nothing can be injected into service
/// configurations and shell scripts.
pub fn validate_server_url(url: &str) -> (r: Result<(), InstallError>)
    ensures
        r == fault_result(server_url_fault(url@)),
{
    let url = trim(url);
    if url.unicode_len() == 0 {
        return Err(InstallError::EmptyUrl);
    }
    if !starts_with(url, "http://") && !starts_with(url, "https://") && !starts_with(url, "ws://")
        && !starts_with(url, "wss://") {
        return Err(InstallError::BadScheme);
    }
    if holds_unsafe_char(url) {
        return Err(InstallError::BadUrlCharacters);
    }
    Ok(())
}

/// Validates an enrollment token: letters and digits only.
pub fn validate_enroll_token(token: &str) -> (r: Result<(), InstallError>)
    ensures
        r == fault_result(enroll_token_fault(token@)),
{
    let t = trim(token);
    let n = t.unicode_len();
    if n == 0 {
        return Err(InstallError::EmptyToken);
    }
    let mut i: usize = 0;
    while i < n
        invariant
            i <= n,
            n == t@.len(),
            n > 0,
            t@ == trimmed(token@),
            forall|j: int| 0 <= j < i ==> is_ascii_alnum(#[trigger] t@[j]),
        decreases n - i,
    {
        let c = t.get_char(i);
        if !(('0' <= c && c <= '9') || ('a' <= c && c <= 'z') || ('A' <= c && c <= 'Z')) {
            proof {
                assert(!is_ascii_alnum(t@[i as int]));
            }
            return Err(InstallError::TokenNotAlphanumeric);
        }
        i += 1;
    }
    Ok(())
}

/// The text of an optional string, or a default.
pub open spec fn text_or(s: Option<String>, default: Seq<char>) -> Seq<char> {
    match s {
        Some(t) => t@,
        None => default,
    }
}

/// The parameters of an unattended installation: the server address and the
/// enrollment token are required, the directory has a default; the service
/// is registered and started.
pub fn silent_install_config(
    install_dir: Option<String>,
    server_url: Option<String>,
    enroll_token: Option<String>,
    default_dir: &str,
) -> (r: Result<InstallConfig, InstallError>)
    ensures
        server_url is None ==> r == Err::<InstallConfig, InstallError>(
            InstallError::MissingServerUrl,
        ),
        server_url is Some && enroll_token is None ==> r == Err::<InstallConfig, InstallError>(
            InstallError::MissingEnrollToken,
        ),
        server_url is Some && enroll_token is Some ==> (r matches Ok(c) && c.server_url@
            == server_url->0@ && c.enroll_token@ == enroll_token->0@ && c.install_dir@ == text_or(
            install_dir,
            default_dir@,
        ) && c.install_service && c.start_service),
{
    let server_url = match server_url {
        Some(url) => url,
        None => {
            return Err(InstallError::MissingServerUrl);
        },
    };
    let enroll_token = match enroll_token {
        Some(token) => token,
        None => {
            return Err(InstallError::MissingEnrollToken);
        },
    };
    let install_dir = match install_dir {
        Some(dir) => dir,
        None => String::from_str(default_dir),
    };
    Ok(
        InstallConfig {
            server_url,
            enroll_token,
            install_dir,
            install_service: true,
            start_service: true,
        },
    )
}

/// What the install dialog objects to in its two text fields, if anything:
/// a server address that starts with none of the schemes, then a missing
/// enrollment token. Both are judged without the white space around them.
pub open spec fn dialog_fault(server_url: Seq<char>, enroll_token: Seq<char>) -> Option<
    InstallError,
> {
    if !has_server_scheme(trimmed(server_url)) {
        Some(InstallError::BadScheme)
    } else if trimmed(enroll_token).len() == 0 {
        Some(InstallError::EmptyToken)
    } else {
        None
    }
}

/// What the install dialog hands on when the user confirms it: the two
/// texts without the white space around them and the two choices, or what
/// it objects to.
pub fn dialog_params(
    server_url: &str,
    enroll_token: &str,
    install_service: bool,
    start_service: bool,
) -> (r: Result<InstallParams, InstallError>)
    ensures
        dialog_fault(server_url@, enroll_token@) matches Some(e) ==> r == Err::<
            InstallParams,
            InstallError,
        >(e),
        dialog_fault(server_url@, enroll_token@) is None ==> (r matches Ok(p) && p.server_url@
            == trimmed(server_url@) && p.enroll_token@ == trimmed(enroll_token@)
            && p.install_service == install_service && p.start_service == start_service),
{
    let url = trim(server_url);
    if !starts_with(url, "http://") && !starts_with(url, "https://") && !starts_with(url, "ws://")
        && !starts_with(url, "wss://") {
        return Err(InstallError::BadScheme);
    }
    let token = trim(enroll_token);
    if token.unicode_len() == 0 {
        return Err(InstallError::EmptyToken);
    }
    Ok(
        InstallParams {
            server_url: String::from_str(url),
            enroll_token: String::from_str(token),
            install_service,
            start_service,
        },
    )
}

/// What the installer asked for on the terminal: the line without the white
/// space around it, which must not be empty.
pub fn prompted_value(line: &str, missing: InstallError) -> (r: Result<String, InstallError>)
    ensures
        trimmed(line@).len() == 0 ==> r == Err::<String, InstallError>(missing),
        trimmed(line@).len() > 0 ==> (r matches Ok(v) && v@ == trimmed(line@)),
{
    let value = trim(line);
    if value.unicode_len() == 0 {
        Err(missing)
    } else {
        Ok(String::from_str(value))
    }
}

/// What to do about the installer's privileges.
#[derive(Debug, Clone, Copy, PartialEq, Eq, Structural)]
pub enum Elevation {
    /// The installer has the privileges it needs.
    Proceed,
    /// It lacks them and cannot get them: the installation does not start.
    Refuse,
    /// It lacks them: start again, asking the user for them.
    Relaunch,
}

/// The decision about the installer's privileges. Only an attended
/// installation on a platform that can ask the user is started again.
pub fn elevation_step(elevated: bool, silent: bool, can_relaunch: bool) -> (step: Elevation)
    ensures
        step == (if elevated {
            Elevation::Proceed
        } else if silent || !can_relaunch {
            Elevation::Refuse
        } else {
            Elevation::Relaunch
        }),
{
    if elevated {
        Elevation::Proceed
    } else if silent || !can_relaunch {
        Elevation::Refuse
    } else {
        Elevation::Relaunch
    }
}

/// What the installer reports after a successful installation.
pub fn install_success_message(install_dir: &str) -> (text: String)
    ensures
        text@ == "Android Remote Agent installed successfully!\n\nInstall directory: "@
            + install_dir@ + "\nService registered and started."@,
{
    concat3(
        "Android Remote Agent installed successfully!\n\nInstall directory: ",
        install_dir,
        "\nService registered and started.",
    )
}

} // verus!
