//! The command executor: reading a control command from its JSON payload and
//! deciding what is to be done and answered.

use vstd::prelude::*;
use vstd::string::*;
use vstd::utf8::{decode_utf8, valid_utf8};
use crate::json::{json_read, parse_json, text_member, text_members, JsonRead};
use crate::text::{concat2, str_eq, str_from_utf8};

verus! {

/// A control command.
#[derive(Debug, Clone)]
pub enum Command {
    RefreshTelemetry,
    Reboot,
    RunShell { command: String },
    Update,
    Unknown { name: String },
}

pub enum CommandView {
    RefreshTelemetry,
    Reboot,
    RunShell { command: Seq<char> },
    Update,
    Unknown { name: Seq<char> },
}

impl View for Command {
    type V = CommandView;

    open spec fn view(&self) -> CommandView {
        match self {
            Command::RefreshTelemetry => CommandView::RefreshTelemetry,
            Command::Reboot => CommandView::Reboot,
            Command::RunShell { command } => CommandView::RunShell { command: command@ },
            Command::Update => CommandView::Update,
            Command::Unknown { name } => CommandView::Unknown { name: name@ },
        }
    }
}

/// Why a payload holds no command.
#[derive(Debug, Clone)]
pub enum CommandError {
    InvalidUtf8,
    /// The payload is no JSON document; holds the reader's complaint.
    InvalidJson(String),
    /// A `RUN_SHELL` without a command line.
    MissingCommand,
}

pub enum CommandErrorView {
    InvalidUtf8,
    InvalidJson(Seq<char>),
    MissingCommand,
}

impl View for CommandError {
    type V = CommandErrorView;

    open spec fn view(&self) -> CommandErrorView {
        match self {
            CommandError::InvalidUtf8 => CommandErrorView::InvalidUtf8,
            CommandError::InvalidJson(complaint) => CommandErrorView::InvalidJson(complaint@),
            CommandError::MissingCommand => CommandErrorView::MissingCommand,
        }
    }
}

/// The command that a type and a command line name. A type that is none of
/// the known ones is an unknown command, not an error.
pub open spec fn command_of(kind: Seq<char>, line: Seq<char>) -> Result<
    CommandView,
    CommandErrorView,
> {
    if kind == "REFRESH_TELEMETRY"@ {
        Ok(CommandView::RefreshTelemetry)
    } else if kind == "REBOOT"@ {
        Ok(CommandView::Reboot)
    } else if kind == "RUN_SHELL"@ {
        if line.len() == 0 {
            Err(CommandErrorView::MissingCommand)
        } else {
            Ok(CommandView::RunShell { command: line })
        }
    } else if kind == "UPDATE"@ {
        Ok(CommandView::Update)
    } else {
        Ok(CommandView::Unknown { name: kind })
    }
}

/// The member under `key`, or the empty text where there is none.
pub open spec fn member_or_empty(members: Map<Seq<char>, Seq<char>>, key: Seq<char>) -> Seq<char> {
    if members.contains_key(key) {
        members[key]
    } else {
        Seq::empty()
    }
}

/// The command in a payload: UTF-8 JSON whose member `type` names the
/// command and whose member `command` holds the command line.
pub open spec fn payload_command(payload: Seq<u8>) -> Result<CommandView, CommandErrorView> {
    if !valid_utf8(payload) {
        Err(CommandErrorView::InvalidUtf8)
    } else {
        match json_read(decode_utf8(payload)) {
            JsonRead::Complaint(complaint) => Err(CommandErrorView::InvalidJson(complaint)),
            JsonRead::Document(members) => command_of(
                member_or_empty(members, "type"@),
                member_or_empty(members, "command"@),
            ),
        }
    }
}

/// Whether a result and its view agree.
pub open spec fn command_agrees(
    r: Result<Command, CommandError>,
    v: Result<CommandView, CommandErrorView>,
) -> bool {
    match (r, v) {
        (Ok(c), Ok(cv)) => c@ == cv,
        (Err(e), Err(ev)) => e@ == ev,
        _ => false,
    }
}

/// The command that a type and a command line name.
pub fn classify_command(kind: &str, line: &str) -> (r: Result<Command, CommandError>)
    ensures
        command_agrees(r, command_of(kind@, line@)),
{
    if str_eq(kind, "REFRESH_TELEMETRY") {
        Ok(Command::RefreshTelemetry)
    } else if str_eq(kind, "REBOOT") {
        Ok(Command::Reboot)
    } else if str_eq(kind, "RUN_SHELL") {
        if line.unicode_len() == 0 {
            Err(CommandError::MissingCommand)
        } else {
            Ok(Command::RunShell { command: String::from_str(line) })
        }
    } else if str_eq(kind, "UPDATE") {
        Ok(Command::Update)
    } else {
        Ok(Command::Unknown { name: String::from_str(kind) })
    }
}

fn member_text(value: &serde_json::Value, key: &str) -> (s: String)
    ensures
        s@ == member_or_empty(text_members(*value), key@),
{
    match text_member(value, key) {
        Some(s) => s,
        None => String::new(),
    }
}

/// Reads the command in the payload of a `COMMAND` frame.
pub fn parse_command(payload: &[u8]) -> (r: Result<Command, CommandError>)
    ensures
        command_agrees(r, payload_command(payload@)),
{
    let text = match str_from_utf8(payload) {
        Some(text) => text,
        None => {
            return Err(CommandError::InvalidUtf8);
        },
    };
    let document = match parse_json(text) {
        Ok(document) => document,
        Err(complaint) => {
            return Err(CommandError::InvalidJson(complaint));
        },
    };
    let kind = member_text(&document, "type");
    let line = member_text(&document, "command");
    classify_command(kind.as_str(), line.as_str())
}

/// The answer to a command: the JSON payload of a `COMMAND_RESULT` frame
/// under the command's request id.
#[derive(Debug, Clone)]
pub enum CommandReply {
    /// `{"success": true}`
    Done,
    /// `{"success": false, "error": ...}`
    Failed(String),
    /// What a shell command gave: whether it succeeded, its exit code where
    /// it has one, and what it wrote.
    Shell { success: bool, exit_code: Option<i32>, stdout: String, stderr: String },
}

pub enum ReplyView {
    Done,
    Failed(Seq<char>),
    Shell { success: bool, exit_code: Option<i32>, stdout: Seq<char>, stderr: Seq<char> },
}

impl View for CommandReply {
    type V = ReplyView;

    open spec fn view(&self) -> ReplyView {
        match self {
            CommandReply::Done => ReplyView::Done,
            CommandReply::Failed(reason) => ReplyView::Failed(reason@),
            CommandReply::Shell { success, exit_code, stdout, stderr } => ReplyView::Shell {
                success: *success,
                exit_code: *exit_code,
                stdout: stdout@,
                stderr: stderr@,
            },
        }
    }
}

/// What the host has to do for a command, in order.
#[derive(Debug, Clone)]
pub enum CommandAction {
    /// Send this answer.
    Reply(CommandReply),
    /// Send the telemetry under the command's request id, then report with
    /// `telemetry_done`.
    SendTelemetry,
    /// Reboot the machine.
    Reboot,
    /// Run this line in the platform's shell, then report with `shell_done`.
    RunShell(String),
    /// Look for an update and apply it, then report with `update_done`.
    Update,
    /// Restart the agent.
    Restart,
}

pub enum CommandActionView {
    Reply(ReplyView),
    SendTelemetry,
    Reboot,
    RunShell(Seq<char>),
    Update,
    Restart,
}

impl View for CommandAction {
    type V = CommandActionView;

    open spec fn view(&self) -> CommandActionView {
        match self {
            CommandAction::Reply(reply) => CommandActionView::Reply(reply@),
            CommandAction::SendTelemetry => CommandActionView::SendTelemetry,
            CommandAction::Reboot => CommandActionView::Reboot,
            CommandAction::RunShell(line) => CommandActionView::RunShell(line@),
            CommandAction::Update => CommandActionView::Update,
            CommandAction::Restart => CommandActionView::Restart,
        }
    }
}

pub open spec fn command_action_views(actions: Seq<CommandAction>) -> Seq<CommandActionView> {
    actions.map_values(|a: CommandAction| a@)
}

/// The text that tells the server why a payload holds no command.
pub open spec fn error_text(e: CommandErrorView) -> Seq<char> {
    match e {
        CommandErrorView::InvalidUtf8 => "invalid UTF-8 payload"@,
        CommandErrorView::InvalidJson(complaint) => "invalid JSON: "@ + complaint,
        CommandErrorView::MissingCommand => "missing 'command' field"@,
    }
}

/// The first actions for a command: a reboot is acknowledged before it
/// happens; an unknown command and a payload without a command are answered
/// with a failure; the others wait for what the host reports.
pub open spec fn first_actions(parsed: Result<CommandView, CommandErrorView>) -> Seq<
    CommandActionView,
> {
    match parsed {
        Err(e) => seq![CommandActionView::Reply(ReplyView::Failed(error_text(e)))],
        Ok(CommandView::RefreshTelemetry) => seq![CommandActionView::SendTelemetry],
        Ok(CommandView::Reboot) => seq![
            CommandActionView::Reply(ReplyView::Done),
            CommandActionView::Reboot,
        ],
        Ok(CommandView::RunShell { command }) => seq![CommandActionView::RunShell(command)],
        Ok(CommandView::Update) => seq![CommandActionView::Update],
        Ok(CommandView::Unknown { name }) => seq![
            CommandActionView::Reply(ReplyView::Failed("unknown command: "@ + name)),
        ],
    }
}

fn one_action(action: CommandAction) -> (out: Vec<CommandAction>)
    ensures
        command_action_views(out@) == seq![action@],
{
    let mut out: Vec<CommandAction> = Vec::new();
    out.push(action);
    proof {
        assert(command_action_views(out@) =~= seq![action@]);
    }
    out
}

fn two_actions(first: CommandAction, second: CommandAction) -> (out: Vec<CommandAction>)
    ensures
        command_action_views(out@) == seq![first@, second@],
{
    let mut out: Vec<CommandAction> = Vec::new();
    out.push(first);
    out.push(second);
    proof {
        assert(command_action_views(out@) =~= seq![first@, second@]);
    }
    out
}

/// The first actions for a command that was read, or for the error of
/// reading it.
pub fn plan_command(parsed: Result<Command, CommandError>) -> (out: Vec<CommandAction>)
    ensures
        forall|v: Result<CommandView, CommandErrorView>|
            command_agrees(parsed, v) ==> command_action_views(out@) == first_actions(v),
{
    match parsed {
        Err(CommandError::InvalidUtf8) => one_action(
            CommandAction::Reply(CommandReply::Failed(String::from_str("invalid UTF-8 payload"))),
        ),
        Err(CommandError::InvalidJson(complaint)) => one_action(
            CommandAction::Reply(
                CommandReply::Failed(concat2("invalid JSON: ", complaint.as_str())),
            ),
        ),
        Err(CommandError::MissingCommand) => one_action(
            CommandAction::Reply(
                CommandReply::Failed(String::from_str("missing 'command' field")),
            ),
        ),
        Ok(Command::RefreshTelemetry) => one_action(CommandAction::SendTelemetry),
        Ok(Command::Reboot) => two_actions(
            CommandAction::Reply(CommandReply::Done),
            CommandAction::Reboot,
        ),
        Ok(Command::RunShell { command }) => one_action(CommandAction::RunShell(command)),
        Ok(Command::Update) => one_action(CommandAction::Update),
        Ok(Command::Unknown { name }) => one_action(
            CommandAction::Reply(CommandReply::Failed(concat2("unknown command: ", name.as_str()))),
        ),
    }
}

/// Reads the command in a payload and returns the first actions for it.
pub fn handle_command(payload: &[u8]) -> (out: Vec<CommandAction>)
    ensures
        command_action_views(out@) == first_actions(payload_command(payload@)),
{
    plan_command(parse_command(payload))
}

/// The answer after the telemetry was sent, or could not be sent for the
/// given reason.
pub fn telemetry_done(result: Result<(), String>) -> (reply: CommandReply)
    ensures
        result is Ok ==> reply@ == ReplyView::Done,
        result matches Err(reason) ==> reply@ == ReplyView::Failed("telemetry error: "@ + reason@),
{
    match result {
        Ok(()) => CommandReply::Done,
        Err(reason) => CommandReply::Failed(concat2("telemetry error: ", reason.as_str())),
    }
}

/// What a shell command gave.
#[derive(Debug, Clone)]
pub struct ShellOutput {
    pub success: bool,
    pub exit_code: Option<i32>,
    pub stdout: String,
    pub stderr: String,
}

/// The answer after a shell command ran, or could not be run for the given
/// reason.
pub fn shell_done(result: Result<ShellOutput, String>) -> (reply: CommandReply)
    ensures
        result matches Ok(out) ==> reply@ == (ReplyView::Shell {
            success: out.success,
            exit_code: out.exit_code,
            stdout: out.stdout@,
            stderr: out.stderr@,
        }),
        result matches Err(reason) ==> reply@ == ReplyView::Failed("exec error: "@ + reason@),
{
    match result {
        Ok(out) => CommandReply::Shell {
            success: out.success,
            exit_code: out.exit_code,
            stdout: out.stdout,
            stderr: out.stderr,
        },
        Err(reason) => CommandReply::Failed(concat2("exec error: ", reason.as_str())),
    }
}

/// The actions after the update was looked for: an applied update is
/// acknowledged and the agent restarted; none to apply is acknowledged; a
/// failure is answered with its reason.
pub fn update_done(result: Result<bool, String>) -> (out: Vec<CommandAction>)
    ensures
        result == Ok::<bool, String>(true) ==> command_action_views(out@) == seq![
            CommandActionView::Reply(ReplyView::Done),
            CommandActionView::Restart,
        ],
        result == Ok::<bool, String>(false) ==> command_action_views(out@) == seq![
            CommandActionView::Reply(ReplyView::Done),
        ],
        result matches Err(reason) ==> command_action_views(out@) == seq![
            CommandActionView::Reply(ReplyView::Failed("update error: "@ + reason@)),
        ],
{
    match result {
        Ok(true) => two_actions(CommandAction::Reply(CommandReply::Done), CommandAction::Restart),
        Ok(false) => one_action(CommandAction::Reply(CommandReply::Done)),
        Err(reason) => one_action(
            CommandAction::Reply(CommandReply::Failed(concat2("update error: ", reason.as_str()))),
        ),
    }
}

} // verus!
