//! The wire protocol: a nine-byte header followed by the payload, with
//! multiplexed channels and request correlation.

use vstd::prelude::*;
use vstd::string::*;
use crate::wire::{
    extend_bytes, held, get_u16_le, get_u32_le, get_u8, put_u16_le, put_u32_le, put_u8, u16_from_le, u16_le,
    u32_from_le, u32_le,
};

verus! {

/// Header size: 1 (type) + 2 (length) + 2 (channel) + 4 (request id).
pub const HEADER_SIZE: usize = 9;

/// Largest payload the protocol accepts (16 MiB).
pub const MAX_PAYLOAD_SIZE: usize = 16777216;

// Control plane (channel 0)
pub const AUTH_REQUEST: u8 = 0x01;
pub const AUTH_RESPONSE: u8 = 0x02;
pub const HEARTBEAT: u8 = 0x03;
pub const HEARTBEAT_ACK: u8 = 0x04;
pub const AGENT_INFO: u8 = 0x05;
pub const COMMAND: u8 = 0x06;
pub const COMMAND_RESULT: u8 = 0x07;

// Desktop (channel 1+)
pub const DESKTOP_OPEN: u8 = 0x10;
pub const DESKTOP_CLOSE: u8 = 0x11;
pub const DESKTOP_FRAME: u8 = 0x12;
pub const DESKTOP_INPUT: u8 = 0x13;
pub const DESKTOP_RESIZE: u8 = 0x14;
pub const DESKTOP_QUALITY: u8 = 0x15;

// Terminal (channel 1+)
pub const TERMINAL_OPEN: u8 = 0x20;
pub const TERMINAL_CLOSE: u8 = 0x21;
pub const TERMINAL_DATA: u8 = 0x22;
pub const TERMINAL_RESIZE: u8 = 0x23;

// Files (channel 0)
pub const FILE_LIST_REQ: u8 = 0x30;
pub const FILE_LIST_RESP: u8 = 0x31;
pub const FILE_DOWNLOAD_REQ: u8 = 0x32;
pub const FILE_DOWNLOAD_DATA: u8 = 0x33;
pub const FILE_UPLOAD_START: u8 = 0x34;
pub const FILE_UPLOAD_DATA: u8 = 0x35;
pub const FILE_UPLOAD_DONE: u8 = 0x36;
pub const FILE_DELETE_REQ: u8 = 0x37;
pub const FILE_RESULT: u8 = 0x38;

// Telemetry (channel 0)
pub const TELEMETRY_REQ: u8 = 0x40;
pub const TELEMETRY_DATA: u8 = 0x41;

// Desktop input sub-types, the first payload byte of DESKTOP_INPUT
pub const MOUSE_MOVE: u8 = 0x01;
pub const MOUSE_BUTTON: u8 = 0x02;
pub const MOUSE_SCROLL: u8 = 0x03;
pub const KEY_EVENT: u8 = 0x04;
pub const TYPE_TEXT: u8 = 0x05;

/// What can go wrong while handling protocol data.
#[derive(Debug, Clone, PartialEq, Eq)]
pub enum ProtocolError {
    BufferTooShort { need: usize, have: usize },
    PayloadTooLarge { size: usize },
    InvalidType(u8),
    /// A JSON payload could not be read or written; holds the reason as text.
    Json(String),
}

/// Raw message header.
#[derive(Debug, Clone, Copy, PartialEq, Eq, Structural)]
pub struct Header {
    pub msg_type: u8,
    pub length: u16,
    pub channel: u16,
    pub request_id: u32,
}

/// A decoded protocol message.
#[derive(Debug, Clone)]
pub struct Message {
    pub header: Header,
    pub payload: Vec<u8>,
}

/// A message as a mathematical value: its header and its payload bytes.
pub struct Frame {
    pub header: Header,
    pub payload: Seq<u8>,
}

impl View for Message {
    type V = Frame;

    open spec fn view(&self) -> Frame {
        Frame { header: self.header, payload: self.payload@ }
    }
}

/// The length field that a payload of `len` bytes gets: its low 16 bits.
pub open spec fn length_field(len: nat) -> u16 {
    (len % 65536) as u16
}

/// The frame that the constructors build from their arguments.
pub open spec fn frame_of(msg_type: u8, channel: u16, request_id: u32, payload: Seq<u8>) -> Frame {
    Frame {
        header: Header { msg_type, length: length_field(payload.len()), channel, request_id },
        payload,
    }
}

impl Frame {
    /// The length field counts the payload exactly.
    pub open spec fn well_formed(self) -> bool {
        self.header.length as nat == self.payload.len()
    }

    /// The nine header bytes followed by the payload.
    pub open spec fn encoding(self) -> Seq<u8> {
        seq![self.header.msg_type] + u16_le(self.header.length) + u16_le(self.header.channel)
            + u32_le(self.header.request_id) + self.payload
    }
}

/// The payload length that the header at the start of `buf` declares.
pub open spec fn declared_len(buf: Seq<u8>) -> nat
    recommends
        buf.len() >= HEADER_SIZE,
{
    u16_from_le(buf[1], buf[2]) as nat
}

/// Whether `buf` starts with a whole frame.
pub open spec fn has_frame(buf: Seq<u8>) -> bool {
    buf.len() >= HEADER_SIZE && buf.len() >= HEADER_SIZE + declared_len(buf)
}

/// The frame at the start of `buf`.
pub open spec fn first_frame(buf: Seq<u8>) -> Frame
    recommends
        has_frame(buf),
{
    Frame {
        header: Header {
            msg_type: buf[0],
            length: u16_from_le(buf[1], buf[2]),
            channel: u16_from_le(buf[3], buf[4]),
            request_id: u32_from_le(buf[5], buf[6], buf[7], buf[8]),
        },
        payload: buf.subrange(HEADER_SIZE as int, HEADER_SIZE + declared_len(buf)),
    }
}

/// The number of bytes that the frame at the start of `buf` takes.
pub open spec fn first_frame_len(buf: Seq<u8>) -> nat
    recommends
        has_frame(buf),
{
    HEADER_SIZE as nat + declared_len(buf)
}

impl Message {
    /// Builds a message; the length field is the payload length, cut to 16 bits.
    pub fn new(msg_type: u8, channel: u16, request_id: u32, payload: Vec<u8>) -> (m: Self)
        ensures
            m@ == frame_of(msg_type, channel, request_id, payload@),
            payload@.len() <= 65535 ==> m@.well_formed(),
    {
        let length: u16 = (payload.len() % 65536) as u16;
        Self { header: Header { msg_type, length, channel, request_id }, payload }
    }

    /// Builds a control-plane message (channel 0).
    pub fn control(msg_type: u8, request_id: u32, payload: Vec<u8>) -> (m: Self)
        ensures
            m@ == frame_of(msg_type, 0, request_id, payload@),
    {
        Self::new(msg_type, 0, request_id, payload)
    }

    /// Builds a session message (channel above 0).
    pub fn session(msg_type: u8, channel: u16, request_id: u32, payload: Vec<u8>) -> (m: Self)
        ensures
            m@ == frame_of(msg_type, channel, request_id, payload@),
    {
        Self::new(msg_type, channel, request_id, payload)
    }

    /// Encodes this message: header, then payload.
    pub fn encode(&self) -> (bytes: Vec<u8>)
        ensures
            bytes@ == self@.encoding(),
            bytes@.len() == HEADER_SIZE + self.payload@.len(),
    {
        let mut buf: Vec<u8> = Vec::new();
        put_u8(&mut buf, self.header.msg_type);
        put_u16_le(&mut buf, self.header.length);
        put_u16_le(&mut buf, self.header.channel);
        put_u32_le(&mut buf, self.header.request_id);
        buf.extend_from_slice(self.payload.as_slice());
        proof {
            assert(buf@ =~= self@.encoding());
        }
        buf
    }

    /// Encodes this message into an existing buffer, behind what it holds.
    pub fn encode_into(&self, buf: &mut bytes::BytesMut)
        ensures
            held(*final(buf)) == held(*old(buf)) + self@.encoding(),
    {
        let encoded = self.encode();
        extend_bytes(buf, encoded.as_slice());
    }

    /// Decodes the message at the start of `buf`. `Ok(None)` means that more
    /// data is needed; on success the second component is the number of bytes
    /// that the message took. A length field above the largest payload never
    /// yields a message: it is an error as soon as that many bytes are there.
    pub fn decode(buf: &[u8]) -> (r: Result<Option<(Message, usize)>, ProtocolError>)
        ensures
            r is Err <==> has_frame(buf@) && declared_len(buf@) > MAX_PAYLOAD_SIZE,
            buf@.len() >= HEADER_SIZE && declared_len(buf@) > MAX_PAYLOAD_SIZE ==> !(r matches Ok(
                Some(_),
            )),
            !has_frame(buf@) ==> r == Ok::<Option<(Message, usize)>, ProtocolError>(None),
            has_frame(buf@) && declared_len(buf@) > MAX_PAYLOAD_SIZE ==> r == Err::<
                Option<(Message, usize)>,
                ProtocolError,
            >(ProtocolError::PayloadTooLarge { size: declared_len(buf@) as usize }),
            has_frame(buf@) && declared_len(buf@) <= MAX_PAYLOAD_SIZE ==> (r matches Ok(
                Some((m, n)),
            ) && m@ == first_frame(buf@) && m@.well_formed() && n == first_frame_len(buf@)),
    {
        if buf.len() < HEADER_SIZE {
            return Ok(None);
        }
        let mut cursor = buf;
        let msg_type = get_u8(&mut cursor);
        let length = get_u16_le(&mut cursor);
        let channel = get_u16_le(&mut cursor);
        let request_id = get_u32_le(&mut cursor);

        let payload_len = length as usize;
        let total_len = HEADER_SIZE + payload_len;

        if buf.len() < total_len {
            return Ok(None);
        }
        if payload_len > MAX_PAYLOAD_SIZE {
            return Err(ProtocolError::PayloadTooLarge { size: payload_len });
        }
        let payload = vstd::slice::slice_to_vec(vstd::slice::slice_subrange(buf, HEADER_SIZE, total_len));
        let msg = Message { header: Header { msg_type, length, channel, request_id }, payload };
        Ok(Some((msg, total_len)))
    }
}

/// Builds a heartbeat message.
pub fn heartbeat() -> (m: Message)
    ensures
        m@ == frame_of(HEARTBEAT, 0, 0, Seq::empty()),
{
    Message::control(HEARTBEAT, 0, Vec::new())
}

/// Builds a heartbeat acknowledgement.
pub fn heartbeat_ack() -> (m: Message)
    ensures
        m@ == frame_of(HEARTBEAT_ACK, 0, 0, Seq::empty()),
{
    Message::control(HEARTBEAT_ACK, 0, Vec::new())
}

/// Builds a terminal data message.
pub fn terminal_data(channel: u16, data: Vec<u8>) -> (m: Message)
    ensures
        m@ == frame_of(TERMINAL_DATA, channel, 0, data@),
{
    Message::session(TERMINAL_DATA, channel, 0, data)
}

/// The payload of a resize message: two little-endian 16-bit sizes.
pub open spec fn size_payload(a: u16, b: u16) -> Seq<u8> {
    u16_le(a) + u16_le(b)
}

/// Builds a terminal resize message.
pub fn terminal_resize(channel: u16, cols: u16, rows: u16) -> (m: Message)
    ensures
        m@ == frame_of(TERMINAL_RESIZE, channel, 0, size_payload(cols, rows)),
        m@.well_formed(),
{
    let mut payload: Vec<u8> = Vec::new();
    put_u16_le(&mut payload, cols);
    put_u16_le(&mut payload, rows);
    Message::session(TERMINAL_RESIZE, channel, 0, payload)
}

/// Builds the desktop resize message that announces the screen size.
pub fn desktop_resize(channel: u16, width: u16, height: u16) -> (m: Message)
    ensures
        m@ == frame_of(DESKTOP_RESIZE, channel, 0, size_payload(width, height)),
        m@.well_formed(),
{
    let mut payload: Vec<u8> = Vec::new();
    put_u16_le(&mut payload, width);
    put_u16_le(&mut payload, height);
    Message::session(DESKTOP_RESIZE, channel, 0, payload)
}

/// The payload of a desktop frame: tile geometry, encoding, flags, image bytes.
pub open spec fn tile_payload(x: u16, y: u16, w: u16, h: u16, encoding: u8, flags: u8, data: Seq<u8>)
    -> Seq<u8> {
    u16_le(x) + u16_le(y) + u16_le(w) + u16_le(h) + seq![encoding, flags] + data
}

/// Builds a desktop frame message.
pub fn desktop_frame(
    channel: u16,
    x: u16,
    y: u16,
    w: u16,
    h: u16,
    encoding: u8,
    flags: u8,
    data: Vec<u8>,
) -> (m: Message)
    ensures
        m@ == frame_of(DESKTOP_FRAME, channel, 0, tile_payload(x, y, w, h, encoding, flags, data@)),
        m@.payload.len() == 10 + data@.len(),
{
    desktop_frame_from(channel, x, y, w, h, encoding, flags, data.as_slice())
}

/// Builds a desktop frame message from image bytes that stay with the caller.
pub fn desktop_frame_from(
    channel: u16,
    x: u16,
    y: u16,
    w: u16,
    h: u16,
    encoding: u8,
    flags: u8,
    data: &[u8],
) -> (m: Message)
    ensures
        m@ == frame_of(DESKTOP_FRAME, channel, 0, tile_payload(x, y, w, h, encoding, flags, data@)),
        m@.payload.len() == 10 + data@.len(),
{
    let mut payload: Vec<u8> = Vec::new();
    put_u16_le(&mut payload, x);
    put_u16_le(&mut payload, y);
    put_u16_le(&mut payload, w);
    put_u16_le(&mut payload, h);
    put_u8(&mut payload, encoding);
    put_u8(&mut payload, flags);
    payload.extend_from_slice(data);
    proof {
        assert(payload@ =~= tile_payload(x, y, w, h, encoding, flags, data@));
    }
    Message::session(DESKTOP_FRAME, channel, 0, payload)
}

/// Builds an authentication request from its JSON payload.
pub fn auth_request(payload: Vec<u8>) -> (m: Message)
    ensures
        m@ == frame_of(AUTH_REQUEST, 0, 0, payload@),
{
    Message::control(AUTH_REQUEST, 0, payload)
}

/// Builds an authentication response from its JSON payload.
pub fn auth_response(payload: Vec<u8>) -> (m: Message)
    ensures
        m@ == frame_of(AUTH_RESPONSE, 0, 0, payload@),
{
    Message::control(AUTH_RESPONSE, 0, payload)
}

// JSON payloads of control-plane messages, as plain values.

/// What the agent sends to authenticate.
#[derive(Debug, Clone)]
pub struct AuthRequest {
    pub token: String,
    pub device_type: String,
    pub agent_version: String,
    pub os: String,
    pub arch: String,
    pub hostname: String,
}

/// The server's answer to an authentication request.
#[derive(Debug, Clone)]
pub struct AuthResponse {
    pub success: bool,
    pub device_id: Option<String>,
    pub session_token: Option<String>,
    pub error: Option<String>,
}

/// What the agent tells the server about itself after authenticating.
#[derive(Debug, Clone)]
pub struct AgentInfo {
    pub hostname: String,
    pub os_name: String,
    pub os_version: String,
    pub arch: String,
    pub agent_version: String,
}

/// The request that opens a desktop session or changes its quality.
#[derive(Debug, Clone)]
pub struct DesktopOpenRequest {
    pub quality: u8,
    pub fps: u16,
    pub encoding: String,
}

/// The quality of a desktop session that names none.
pub fn default_quality() -> (q: u8)
    ensures
        q == 70,
{
    70
}

/// The frame rate of a desktop session that names none.
pub fn default_fps() -> (fps: u16)
    ensures
        fps == 15,
{
    15
}

/// The encoding of a desktop session that names none.
pub fn default_encoding() -> (e: String)
    ensures
        e@ == "jpeg"@,
{
    String::from_str("jpeg")
}

/// The request that opens a terminal session.
#[derive(Debug, Clone)]
pub struct TerminalOpenRequest {
    pub shell: Option<String>,
    pub cols: u16,
    pub rows: u16,
}

/// The width of a terminal whose request names none.
pub fn default_cols() -> (cols: u16)
    ensures
        cols == 80,
{
    80
}

/// The height of a terminal whose request names none.
pub fn default_rows() -> (rows: u16)
    ensures
        rows == 24,
{
    24
}

#[derive(Debug, Clone)]
pub struct FileListRequest {
    pub path: String,
}

#[derive(Debug, Clone)]
pub struct FileDownloadRequest {
    pub path: String,
}

#[derive(Debug, Clone)]
pub struct FileUploadStart {
    pub path: String,
    pub size: u64,
    pub checksum: Option<String>,
}

#[derive(Debug, Clone)]
pub struct FileDeleteRequest {
    pub path: String,
}

#[derive(Debug, Clone)]
pub struct FileResult {
    pub success: bool,
    pub error: Option<String>,
}

} // verus!
