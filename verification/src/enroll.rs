//! Enrollment: reading what the server answers to an enrollment request.

use vstd::prelude::*;
use vstd::string::*;
use vstd::utf8::{decode_utf8, valid_utf8};
use crate::json::{json_read, parse_json, text_member, text_members, JsonRead};
use crate::text::str_from_utf8;

verus! {

/// What an enrollment gives: the device's id and its session token.
#[derive(Debug, Clone)]
pub struct Enrollment {
    pub device_id: String,
    pub session_token: String,
}

/// Why an answer holds no enrollment.
#[derive(Debug, Clone)]
pub enum EnrollError {
    InvalidUtf8,
    /// The answer is no JSON document; holds the reader's complaint.
    InvalidJson(String),
    MissingDeviceId,
    MissingSessionToken,
}

/// An enrollment or the reason why there is none, as a mathematical value.
pub enum EnrollmentView {
    Enrolled { device_id: Seq<char>, session_token: Seq<char> },
    InvalidUtf8,
    InvalidJson(Seq<char>),
    MissingDeviceId,
    MissingSessionToken,
}

/// The view of a result.
pub open spec fn enrollment_view(r: Result<Enrollment, EnrollError>) -> EnrollmentView {
    match r {
        Ok(e) => EnrollmentView::Enrolled {
            device_id: e.device_id@,
            session_token: e.session_token@,
        },
        Err(EnrollError::InvalidUtf8) => EnrollmentView::InvalidUtf8,
        Err(EnrollError::InvalidJson(complaint)) => EnrollmentView::InvalidJson(complaint@),
        Err(EnrollError::MissingDeviceId) => EnrollmentView::MissingDeviceId,
        Err(EnrollError::MissingSessionToken) => EnrollmentView::MissingSessionToken,
    }
}

/// The enrollment in the server's answer: UTF-8 JSON whose members
/// `deviceId` and `sessionToken` are strings.
pub open spec fn enrollment_of(body: Seq<u8>) -> EnrollmentView {
    if !valid_utf8(body) {
        EnrollmentView::InvalidUtf8
    } else {
        match json_read(decode_utf8(body)) {
            JsonRead::Complaint(complaint) => EnrollmentView::InvalidJson(complaint),
            JsonRead::Document(members) => if !members.contains_key("deviceId"@) {
                EnrollmentView::MissingDeviceId
            } else if !members.contains_key("sessionToken"@) {
                EnrollmentView::MissingSessionToken
            } else {
                EnrollmentView::Enrolled {
                    device_id: members["deviceId"@],
                    session_token: members["sessionToken"@],
                }
            },
        }
    }
}

/// Reads the enrollment in the server's answer.
pub fn read_enrollment(body: &[u8]) -> (r: Result<Enrollment, EnrollError>)
    ensures
        enrollment_view(r) == enrollment_of(body@),
{
    let text = match str_from_utf8(body) {
        Some(text) => text,
        None => {
            return Err(EnrollError::InvalidUtf8);
        },
    };
    let document = match parse_json(text) {
        Ok(document) => document,
        Err(complaint) => {
            return Err(EnrollError::InvalidJson(complaint));
        },
    };
    let device_id = match text_member(&document, "deviceId") {
        Some(id) => id,
        None => {
            return Err(EnrollError::MissingDeviceId);
        },
    };
    let session_token = match text_member(&document, "sessionToken") {
        Some(token) => token,
        None => {
            return Err(EnrollError::MissingSessionToken);
        },
    };
    Ok(Enrollment { device_id, session_token })
}

/// Whether an HTTP status reports success.
pub fn is_success_status(status: u16) -> (r: bool)
    ensures
        r == (200 <= status && status <= 299),
{
    200 <= status && status <= 299
}

} // verus!
