//! The message router: where a decoded frame goes, by its opcode.

use vstd::prelude::*;
use crate::protocol::{
    COMMAND, DESKTOP_OPEN, DESKTOP_QUALITY, FILE_DELETE_REQ, FILE_DOWNLOAD_REQ, FILE_LIST_REQ,
    FILE_UPLOAD_DATA, FILE_UPLOAD_START, TELEMETRY_REQ, TERMINAL_OPEN, TERMINAL_RESIZE,
};

verus! {

/// Where a frame goes.
#[derive(Debug, Clone, Copy, PartialEq, Eq, Structural)]
pub enum Route {
    /// To the command executor.
    Command,
    /// To the session multiplexer of this process.
    Session,
    /// To the file transfer engine.
    File,
    /// To the telemetry collector.
    Telemetry,
    /// Unchanged to the helper, over the pipe.
    Helper,
    /// Nowhere: an unknown opcode, or a session frame while no helper is attached.
    Dropped,
}

/// Whether an opcode belongs to a shell or a screen session: every
/// `DESKTOP_*` and every `TERMINAL_*` opcode.
pub open spec fn session_opcode(msg_type: u8) -> bool {
    (DESKTOP_OPEN <= msg_type && msg_type <= DESKTOP_QUALITY) || (TERMINAL_OPEN <= msg_type
        && msg_type <= TERMINAL_RESIZE)
}

/// Whether an opcode belongs to a file operation as the server sends them.
pub open spec fn file_opcode(msg_type: u8) -> bool {
    msg_type == FILE_LIST_REQ || msg_type == FILE_DOWNLOAD_REQ || msg_type == FILE_UPLOAD_START
        || msg_type == FILE_UPLOAD_DATA || msg_type == FILE_DELETE_REQ
}

/// Where a frame with this opcode goes. In no-desktop mode the session
/// frames go to the helper and never to this process's multiplexer; without
/// an attached helper they are dropped.
pub open spec fn route_of(msg_type: u8, no_desktop: bool, helper_attached: bool) -> Route {
    if session_opcode(msg_type) {
        if !no_desktop {
            Route::Session
        } else if helper_attached {
            Route::Helper
        } else {
            Route::Dropped
        }
    } else if msg_type == COMMAND {
        Route::Command
    } else if file_opcode(msg_type) {
        Route::File
    } else if msg_type == TELEMETRY_REQ {
        Route::Telemetry
    } else {
        Route::Dropped
    }
}

/// Whether a message type is a session message (desktop or terminal).
pub fn is_session_message(msg_type: u8) -> (r: bool)
    ensures
        r == session_opcode(msg_type),
        r == ((0x10 <= msg_type && msg_type <= 0x15) || (0x20 <= msg_type && msg_type <= 0x23)),
{
    (DESKTOP_OPEN <= msg_type && msg_type <= DESKTOP_QUALITY) || (TERMINAL_OPEN <= msg_type
        && msg_type <= TERMINAL_RESIZE)
}

/// Whether a message type is a file operation.
pub fn is_file_message(msg_type: u8) -> (r: bool)
    ensures
        r == file_opcode(msg_type),
{
    msg_type == FILE_LIST_REQ || msg_type == FILE_DOWNLOAD_REQ || msg_type == FILE_UPLOAD_START
        || msg_type == FILE_UPLOAD_DATA || msg_type == FILE_DELETE_REQ
}

/// Where a frame with this opcode goes.
pub fn route(msg_type: u8, no_desktop: bool, helper_attached: bool) -> (r: Route)
    ensures
        r == route_of(msg_type, no_desktop, helper_attached),
{
    if is_session_message(msg_type) {
        if !no_desktop {
            Route::Session
        } else if helper_attached {
            Route::Helper
        } else {
            Route::Dropped
        }
    } else if msg_type == COMMAND {
        Route::Command
    } else if is_file_message(msg_type) {
        Route::File
    } else if msg_type == TELEMETRY_REQ {
        Route::Telemetry
    } else {
        Route::Dropped
    }
}

/// In no-desktop mode no frame reaches the session multiplexer of this
/// process, and every session frame reaches the helper while one is attached.
pub proof fn lemma_no_desktop_bypasses_sessions(msg_type: u8, helper_attached: bool)
    ensures
        route_of(msg_type, true, helper_attached) != Route::Session,
        session_opcode(msg_type) && helper_attached ==> route_of(msg_type, true, helper_attached)
            == Route::Helper,
{
}

} // verus!
