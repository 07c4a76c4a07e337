//! The framing of the local pipe between service and helper: each message is
//! a little-endian 32-bit length followed by that many bytes.

use vstd::prelude::*;
use vstd::string::*;
use crate::protocol::Frame;
use crate::text::concat2;
use crate::wire::{put_u32_le, read_u32_le, u32_from_le, u32_le};

verus! {

/// Pipe buffer size (256 KiB).
pub const PIPE_BUFFER_SIZE: u32 = 262144;

/// Largest message over the pipe (16 MiB).
pub const MAX_IPC_MESSAGE_SIZE: u32 = 16777216;

/// The number of bytes of the length prefix.
pub const LENGTH_PREFIX_SIZE: usize = 4;

/// A violation of the pipe's framing, upon which the pipe is given up.
#[derive(Debug, Clone, Copy, PartialEq, Eq, Structural)]
pub enum IpcError {
    /// The message is longer than the largest message; holds its length,
    /// or the largest number of 32 bits where that is less.
    TooLarge { size: u32 },
    /// The message has no bytes.
    Empty,
    /// The reader was handed another number of bytes than it asked for, or
    /// bytes after a violation.
    Misread,
}

/// A message as it goes over the pipe: the length of `data`, then `data`.
pub open spec fn ipc_frame(data: Seq<u8>) -> Seq<u8>
    recommends
        data.len() <= MAX_IPC_MESSAGE_SIZE,
{
    u32_le(data.len() as u32) + data
}

/// Why a message of `len` bytes cannot go over the pipe, if it cannot: it
/// is empty, or longer than the largest message.
pub open spec fn frame_fault(len: nat) -> Option<IpcError> {
    if len == 0 {
        Some(IpcError::Empty)
    } else if len > u32::MAX {
        Some(IpcError::TooLarge { size: u32::MAX })
    } else if len > MAX_IPC_MESSAGE_SIZE {
        Some(IpcError::TooLarge { size: len as u32 })
    } else {
        None
    }
}

/// What a length prefix means: a length between 1 and the largest message,
/// or the violation.
pub open spec fn message_length(len: u32) -> Result<usize, IpcError> {
    if len > MAX_IPC_MESSAGE_SIZE {
        Err(IpcError::TooLarge { size: len })
    } else if len == 0 {
        Err(IpcError::Empty)
    } else {
        Ok(len as usize)
    }
}

/// The name of the pipe for a device.
pub open spec fn pipe_name_of(device_id: Seq<char>) -> Seq<char> {
    "\\\\.\\pipe\\android-remote-agent-"@ + device_id
}

/// The standard pipe name for a given device id.
pub fn pipe_name_for_device(device_id: &str) -> (name: String)
    ensures
        name@ == pipe_name_of(device_id@),
{
    concat2("\\\\.\\pipe\\android-remote-agent-", device_id)
}

/// The writing side of the framing.
#[derive(Debug, Clone, Copy)]
pub struct IpcWriter {}

impl IpcWriter {
    /// The bytes to write for one message: the length prefix, then `data`.
    /// A message that the reading side would refuse is refused here: one
    /// without bytes, and one above the largest message.
    pub fn frame(data: &[u8]) -> (r: Result<Vec<u8>, IpcError>)
        ensures
            frame_fault(data@.len()) matches Some(e) ==> r == Err::<Vec<u8>, IpcError>(e),
            frame_fault(data@.len()) is None ==> (r matches Ok(out) && out@ == ipc_frame(data@)
                && out@.len() == 4 + data@.len()),
    {
        let len = data.len();
        if len == 0 {
            return Err(IpcError::Empty);
        }
        if len > u32::MAX as usize {
            return Err(IpcError::TooLarge { size: u32::MAX });
        }
        if len > MAX_IPC_MESSAGE_SIZE as usize {
            return Err(IpcError::TooLarge { size: len as u32 });
        }
        let mut out: Vec<u8> = Vec::new();
        put_u32_le(&mut out, len as u32);
        out.extend_from_slice(data);
        Ok(out)
    }
}

/// What the reader waits for.
#[derive(Debug, Clone, Copy, PartialEq, Eq, Structural)]
pub enum ReadState {
    /// The four bytes of a length prefix.
    Prefix,
    /// The bytes of a message of the given length.
    Body(usize),
    /// Nothing any more: the framing was violated.
    Failed,
}

/// The reading side of the framing: it says how many bytes to read next and
/// takes them in.
#[derive(Debug)]
pub struct IpcReader {
    state: ReadState,
}

impl View for IpcReader {
    type V = ReadState;

    closed spec fn view(&self) -> ReadState {
        self.state
    }
}

/// The number of bytes that a reader in `state` asks for.
pub open spec fn bytes_wanted(state: ReadState) -> usize {
    match state {
        ReadState::Prefix => 4,
        ReadState::Body(n) => n,
        ReadState::Failed => 0,
    }
}

impl IpcReader {
    pub fn new() -> (r: Self)
        ensures
            r@ == ReadState::Prefix,
    {
        IpcReader { state: ReadState::Prefix }
    }

    /// The number of bytes to read from the pipe next.
    pub fn wanted(&self) -> (n: usize)
        ensures
            n == bytes_wanted(self@),
    {
        match self.state {
            ReadState::Prefix => 4,
            ReadState::Body(n) => n,
            ReadState::Failed => 0,
        }
    }

    /// Takes in the bytes that were read. A length prefix is checked: a
    /// length of zero or above the largest message is a violation, after
    /// which the reader takes nothing more. The bytes of a body come back as
    /// the message. Bytes in another number than was asked for are a
    /// violation too.
    pub fn recv_raw(&mut self, bytes: &[u8]) -> (r: Result<Option<Vec<u8>>, IpcError>)
        ensures
            old(self)@ is Prefix && bytes@.len() == 4 ==> {
                let len = u32_from_le(bytes@[0], bytes@[1], bytes@[2], bytes@[3]);
                match message_length(len) {
                    Ok(n) => r == Ok::<Option<Vec<u8>>, IpcError>(None) && final(self)@
                        == ReadState::Body(n),
                    Err(e) => r == Err::<Option<Vec<u8>>, IpcError>(e) && final(self)@
                        == ReadState::Failed,
                }
            },
            old(self)@ matches ReadState::Body(n) && bytes@.len() == n ==> (r matches Ok(Some(m))
                && m@ == bytes@) && final(self)@ == ReadState::Prefix,
            old(self)@ is Failed || bytes@.len() != bytes_wanted(old(self)@) ==> r == Err::<
                Option<Vec<u8>>,
                IpcError,
            >(IpcError::Misread) && final(self)@ == ReadState::Failed,
    {
        match self.state {
            ReadState::Prefix => {
                if bytes.len() != 4 {
                    self.state = ReadState::Failed;
                    return Err(IpcError::Misread);
                }
                let len = read_u32_le(bytes, 0);
                if len > MAX_IPC_MESSAGE_SIZE {
                    self.state = ReadState::Failed;
                    Err(IpcError::TooLarge { size: len })
                } else if len == 0 {
                    self.state = ReadState::Failed;
                    Err(IpcError::Empty)
                } else {
                    self.state = ReadState::Body(len as usize);
                    Ok(None)
                }
            },
            ReadState::Body(n) => {
                if bytes.len() != n {
                    self.state = ReadState::Failed;
                    return Err(IpcError::Misread);
                }
                self.state = ReadState::Prefix;
                Ok(Some(vstd::slice::slice_to_vec(bytes)))
            },
            ReadState::Failed => Err(IpcError::Misread),
        }
    }
}

/// What was framed is read back: the prefix of a message that the writing
/// side accepts announces the message's length, and the message follows it.
pub proof fn lemma_ipc_roundtrip(data: Seq<u8>)
    requires
        frame_fault(data.len()) is None,
    ensures
        0 < data.len() <= MAX_IPC_MESSAGE_SIZE,
        ipc_frame(data).len() == 4 + data.len(),
        message_length(
            u32_from_le(ipc_frame(data)[0], ipc_frame(data)[1], ipc_frame(data)[2], ipc_frame(data)[3]),
        ) == Ok::<usize, IpcError>(data.len() as usize),
        ipc_frame(data).skip(4) == data,
{
    let len = data.len() as u32;
    crate::wire::lemma_u32_le_roundtrip(len);
    let f = ipc_frame(data);
    assert(f[0] == u32_le(len)[0]);
    assert(f[1] == u32_le(len)[1]);
    assert(f[2] == u32_le(len)[2]);
    assert(f[3] == u32_le(len)[3]);
    assert(f.skip(4) =~= data);
}

/// The encoding of a well-formed frame always goes over the pipe.
pub proof fn lemma_frame_fits_pipe(f: Frame)
    requires
        f.well_formed(),
    ensures
        frame_fault(f.encoding().len()) is None,
        f.encoding().len() == 9 + f.payload.len(),
{
}

} // verus!
