//! Reassembly of frames from a byte stream, and the laws of the frame codec.

use vstd::prelude::*;
use crate::protocol::{
    declared_len, first_frame, first_frame_len, has_frame, Frame, Message, ProtocolError,
    HEADER_SIZE, MAX_PAYLOAD_SIZE,
};
use crate::wire::{
    lemma_u16_le_roundtrip, lemma_u32_le_roundtrip, u16_from_le, u16_le, u32_from_le, u32_le,
};

verus! {

/// The encodings of `frames`, one after the other.
pub open spec fn encode_all(frames: Seq<Frame>) -> Seq<u8>
    decreases frames.len(),
{
    if frames.len() == 0 {
        Seq::empty()
    } else {
        frames[0].encoding() + encode_all(frames.skip(1))
    }
}

/// Every frame of `frames` has a length field that counts its payload.
pub open spec fn all_well_formed(frames: Seq<Frame>) -> bool {
    forall|i: int| 0 <= i < frames.len() ==> (#[trigger] frames[i]).well_formed()
}

/// The whole frames at the start of `buf`, in order.
pub open spec fn frames_in(buf: Seq<u8>) -> Seq<Frame>
    decreases buf.len(),
{
    if has_frame(buf) {
        seq![first_frame(buf)] + frames_in(buf.skip(first_frame_len(buf) as int))
    } else {
        Seq::empty()
    }
}

/// What is left of `buf` behind its whole frames: the start of a frame that
/// has not arrived completely, or nothing.
pub open spec fn rest_after_frames(buf: Seq<u8>) -> Seq<u8>
    decreases buf.len(),
{
    if has_frame(buf) {
        rest_after_frames(buf.skip(first_frame_len(buf) as int))
    } else {
        buf
    }
}

/// No header declares more than the largest payload: the length field has 16 bits.
pub proof fn lemma_declared_len_bounded(buf: Seq<u8>)
    ensures
        declared_len(buf) <= 65535,
        declared_len(buf) <= MAX_PAYLOAD_SIZE,
{
}

/// A buffer that starts with the encoding of a well-formed frame starts with
/// that frame, whatever follows it.
pub proof fn lemma_first_frame_of_encoding(f: Frame, rest: Seq<u8>)
    requires
        f.well_formed(),
    ensures
        has_frame(f.encoding() + rest),
        first_frame(f.encoding() + rest) == f,
        first_frame_len(f.encoding() + rest) == HEADER_SIZE + f.payload.len(),
        (f.encoding() + rest).skip(first_frame_len(f.encoding() + rest) as int) == rest,
{
    let buf = f.encoding() + rest;
    lemma_u16_le_roundtrip(f.header.length);
    lemma_u16_le_roundtrip(f.header.channel);
    lemma_u32_le_roundtrip(f.header.request_id);
    assert(f.encoding().len() == HEADER_SIZE + f.payload.len());
    assert(buf[0] == f.header.msg_type);
    assert(buf[1] == u16_le(f.header.length)[0]);
    assert(buf[2] == u16_le(f.header.length)[1]);
    assert(buf[3] == u16_le(f.header.channel)[0]);
    assert(buf[4] == u16_le(f.header.channel)[1]);
    assert(buf[5] == u32_le(f.header.request_id)[0]);
    assert(buf[6] == u32_le(f.header.request_id)[1]);
    assert(buf[7] == u32_le(f.header.request_id)[2]);
    assert(buf[8] == u32_le(f.header.request_id)[3]);
    assert(declared_len(buf) == f.payload.len());
    assert(first_frame(buf).payload =~= f.payload);
    assert(buf.skip(first_frame_len(buf) as int) =~= rest);
}

/// Decoding the encoding of a frame gives the frame back, and consumes the
/// header and the payload.
pub proof fn lemma_decode_encode(f: Frame)
    requires
        f.well_formed(),
    ensures
        has_frame(f.encoding()),
        declared_len(f.encoding()) <= MAX_PAYLOAD_SIZE,
        first_frame(f.encoding()) == f,
        first_frame_len(f.encoding()) == HEADER_SIZE + f.payload.len(),
{
    lemma_first_frame_of_encoding(f, Seq::empty());
    assert(f.encoding() + Seq::<u8>::empty() =~= f.encoding());
    lemma_declared_len_bounded(f.encoding());
}

/// Repeated decoding of a concatenation of encodings yields exactly the
/// frames that were encoded, in order, and leaves nothing.
pub proof fn lemma_frames_in_encode_all(frames: Seq<Frame>)
    requires
        all_well_formed(frames),
    ensures
        frames_in(encode_all(frames)) == frames,
        rest_after_frames(encode_all(frames)) == Seq::<u8>::empty(),
    decreases frames.len(),
{
    if frames.len() == 0 {
        assert(frames_in(encode_all(frames)) =~= frames);
    } else {
        let f = frames[0];
        let tail = frames.skip(1);
        assert(f.well_formed());
        assert forall|i: int| 0 <= i < tail.len() implies (#[trigger] tail[i]).well_formed() by {
            assert(tail[i] == frames[i + 1]);
        }
        lemma_first_frame_of_encoding(f, encode_all(tail));
        lemma_frames_in_encode_all(tail);
        assert(frames_in(encode_all(frames)) =~= frames);
    }
}

/// A proper prefix of the encoding of a frame holds no whole frame: decoding
/// it asks for more data.
pub proof fn lemma_prefix_incomplete(f: Frame, n: int)
    requires
        f.well_formed(),
        0 <= n < f.encoding().len(),
    ensures
        !has_frame(f.encoding().take(n)),
{
    let enc = f.encoding();
    let p = enc.take(n);
    lemma_decode_encode(f);
    if n >= HEADER_SIZE {
        assert(p[1] == enc[1]);
        assert(p[2] == enc[2]);
        assert(declared_len(p) == declared_len(enc));
    }
}

/// Reading in two parts gives what reading at once gives: the frames of the
/// first part, then the frames of what it left over together with the second
/// part; and the same bytes are left over in the end.
pub proof fn lemma_frames_across_reads(a: Seq<u8>, b: Seq<u8>)
    ensures
        frames_in(a + b) == frames_in(a) + frames_in(rest_after_frames(a) + b),
        rest_after_frames(a + b) == rest_after_frames(rest_after_frames(a) + b),
    decreases a.len(),
{
    if has_frame(a) {
        let n = first_frame_len(a) as int;
        let whole = a + b;
        assert(whole[1] == a[1] && whole[2] == a[2]);
        assert(declared_len(whole) == declared_len(a));
        assert(has_frame(whole));
        assert(whole[0] == a[0] && whole[3] == a[3] && whole[4] == a[4]);
        assert(whole[5] == a[5] && whole[6] == a[6] && whole[7] == a[7] && whole[8] == a[8]);
        assert(first_frame(whole).payload =~= first_frame(a).payload);
        assert(whole.skip(n) =~= a.skip(n) + b);
        lemma_frames_across_reads(a.skip(n), b);
        assert(frames_in(whole) =~= frames_in(a) + frames_in(rest_after_frames(a) + b));
    } else {
        assert(frames_in(a) + frames_in(a + b) =~= frames_in(a + b));
    }
}

/// A header that declares no payload is a whole frame of nine bytes.
pub proof fn lemma_header_only_frame(buf: Seq<u8>)
    requires
        buf.len() >= HEADER_SIZE,
        declared_len(buf) == 0,
    ensures
        has_frame(buf),
        first_frame(buf).payload == Seq::<u8>::empty(),
        first_frame_len(buf) == HEADER_SIZE,
{
    assert(first_frame(buf).payload =~= Seq::<u8>::empty());
}

/// The bytes received and not yet decoded.
pub struct FrameBuffer {
    buf: Vec<u8>,
}

impl View for FrameBuffer {
    type V = Seq<u8>;

    closed spec fn view(&self) -> Seq<u8> {
        self.buf@
    }
}

/// The views of `messages`, in order.
pub open spec fn frames_of(messages: Seq<Message>) -> Seq<Frame> {
    messages.map_values(|m: Message| m@)
}

impl FrameBuffer {
    /// An empty buffer.
    pub fn new() -> (b: Self)
        ensures
            b@ == Seq::<u8>::empty(),
    {
        FrameBuffer { buf: Vec::new() }
    }

    /// The number of bytes held.
    pub fn len(&self) -> (n: usize)
        ensures
            n == self@.len(),
    {
        self.buf.len()
    }

    /// Appends the bytes of one transport read.
    pub fn extend(&mut self, data: &[u8])
        ensures
            final(self)@ == old(self)@ + data@,
    {
        self.buf.extend_from_slice(data);
    }

    /// Drops everything held.
    pub fn clear(&mut self)
        ensures
            final(self)@ == Seq::<u8>::empty(),
    {
        self.buf.clear();
    }

    /// Takes the first whole frame out of the buffer, if there is one.
    pub fn next_frame(&mut self) -> (r: Option<Message>)
        ensures
            has_frame(old(self)@) ==> (r matches Some(m) && m@ == first_frame(old(self)@)
                && m@.well_formed() && final(self)@ == old(self)@.skip(
                first_frame_len(old(self)@) as int,
            )),
            !has_frame(old(self)@) ==> r is None && final(self)@ == old(self)@,
    {
        proof {
            lemma_declared_len_bounded(self.buf@);
        }
        match Message::decode(self.buf.as_slice()) {
            Ok(Some((msg, consumed))) => {
                let rest = self.buf.split_off(consumed);
                self.buf = rest;
                proof {
                    assert(self.buf@ =~= old(self)@.skip(first_frame_len(old(self)@) as int));
                }
                Some(msg)
            },
            Ok(None) => None,
            Err(_) => None,
        }
    }

    /// Takes every whole frame out of the buffer, in order; what is left is
    /// the start of a frame that has not arrived completely.
    pub fn drain_frames(&mut self) -> (out: Vec<Message>)
        ensures
            frames_of(out@) == frames_in(old(self)@),
            final(self)@ == rest_after_frames(old(self)@),
            !has_frame(final(self)@),
    {
        let mut out: Vec<Message> = Vec::new();
        loop
            invariant
                frames_of(out@) + frames_in(self@) == frames_in(old(self)@),
                rest_after_frames(self@) == rest_after_frames(old(self)@),
            decreases self@.len(),
        {
            let ghost before = self@;
            let ghost done = frames_of(out@);
            match self.next_frame() {
                Some(msg) => {
                    out.push(msg);
                    proof {
                        assert(frames_of(out@) =~= done.push(msg@));
                        assert(done.push(msg@) + frames_in(self@) =~= done + frames_in(before));
                    }
                },
                None => {
                    proof {
                        assert(frames_in(self@) =~= Seq::<Frame>::empty());
                        assert(frames_of(out@) + Seq::<Frame>::empty() =~= frames_of(out@));
                    }
                    return out;
                },
            }
        }
    }
}

} // verus!
