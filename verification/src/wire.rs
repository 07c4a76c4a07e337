//! Little-endian integer fields as they appear on the wire, and the calls into
//! the `bytes` crate that write and read them.

use vstd::prelude::*;

verus! {

/// The two bytes of `v`, low byte first.
pub open spec fn u16_le(v: u16) -> Seq<u8> {
    seq![(v % 256) as u8, (v / 256) as u8]
}

/// The four bytes of `v`, low byte first.
pub open spec fn u32_le(v: u32) -> Seq<u8> {
    seq![
        (v % 256) as u8,
        ((v / 256) % 256) as u8,
        ((v / 65536) % 256) as u8,
        (v / 16777216) as u8,
    ]
}

/// The value whose little-endian bytes are `b0`, `b1`.
pub open spec fn u16_from_le(b0: u8, b1: u8) -> u16 {
    (b0 as int + 256 * (b1 as int)) as u16
}

/// The signed value whose little-endian two's-complement bytes are `b0`, `b1`.
pub open spec fn i16_from_le(b0: u8, b1: u8) -> i16 {
    let u = b0 as int + 256 * (b1 as int);
    if u < 32768 {
        u as i16
    } else {
        (u - 65536) as i16
    }
}

/// The value whose little-endian bytes are `b0` to `b3`.
pub open spec fn u32_from_le(b0: u8, b1: u8, b2: u8, b3: u8) -> u32 {
    (b0 as int + 256 * (b1 as int) + 65536 * (b2 as int) + 16777216 * (b3 as int)) as u32
}

/// Reading back the bytes of a 16-bit value gives the value.
pub proof fn lemma_u16_le_roundtrip(v: u16)
    ensures
        u16_le(v).len() == 2,
        u16_from_le(u16_le(v)[0], u16_le(v)[1]) == v,
{
}

/// Reading back the bytes of a 32-bit value gives the value.
pub proof fn lemma_u32_le_roundtrip(v: u32)
    ensures
        u32_le(v).len() == 4,
        u32_from_le(u32_le(v)[0], u32_le(v)[1], u32_le(v)[2], u32_le(v)[3]) == v,
{
    let x = v as int;
    let q1 = x / 256;
    let q2 = x / 65536;
    let q3 = x / 16777216;
    assert(x == 256 * q1 + x % 256);
    assert(q2 == q1 / 256);
    assert(q1 == 256 * q2 + q1 % 256);
    assert(q3 == q2 / 256);
    assert(q2 == 256 * q3 + q2 % 256);
}

/// Writing the value read from two bytes gives those bytes.
pub proof fn lemma_u16_from_le_roundtrip(b0: u8, b1: u8)
    ensures
        u16_le(u16_from_le(b0, b1)) == seq![b0, b1],
{
    assert(u16_le(u16_from_le(b0, b1)) =~= seq![b0, b1]);
}

/// Writing the value read from four bytes gives those bytes.
pub proof fn lemma_u32_from_le_roundtrip(b0: u8, b1: u8, b2: u8, b3: u8)
    ensures
        u32_le(u32_from_le(b0, b1, b2, b3)) == seq![b0, b1, b2, b3],
{
    let x = b0 as int + 256 * (b1 as int) + 65536 * (b2 as int) + 16777216 * (b3 as int);
    let q1 = b1 as int + 256 * (b2 as int) + 65536 * (b3 as int);
    let q2 = b2 as int + 256 * (b3 as int);
    assert(x == 256 * q1 + b0);
    assert(x % 256 == b0 && x / 256 == q1);
    assert(q1 == 256 * q2 + b1);
    assert(q1 % 256 == b1 && q1 / 256 == q2);
    assert(x / 65536 == q2);
    assert(q2 % 256 == b2 && q2 / 256 == b3);
    assert(x / 16777216 == b3);
    assert(u32_le(u32_from_le(b0, b1, b2, b3)) =~= seq![b0, b1, b2, b3]);
}

/// `bytes::BufMut::put_u8` on a `Vec<u8>`: the vector grows by the byte `n`
/// and keeps what it held.
#[verifier::external_body]
pub(crate) fn put_u8(buf: &mut Vec<u8>, n: u8)
    ensures
        final(buf)@ == old(buf)@.push(n),
{
    bytes::BufMut::put_u8(buf, n)
}

/// `bytes::BufMut::put_u16_le` on a `Vec<u8>`: the vector grows by the two
/// bytes of `n`, low byte first, and keeps what it held.
#[verifier::external_body]
pub(crate) fn put_u16_le(buf: &mut Vec<u8>, n: u16)
    ensures
        final(buf)@ == old(buf)@ + u16_le(n),
{
    bytes::BufMut::put_u16_le(buf, n)
}

/// `bytes::BufMut::put_u32_le` on a `Vec<u8>`: the vector grows by the four
/// bytes of `n`, low byte first, and keeps what it held.
#[verifier::external_body]
pub(crate) fn put_u32_le(buf: &mut Vec<u8>, n: u32)
    ensures
        final(buf)@ == old(buf)@ + u32_le(n),
{
    bytes::BufMut::put_u32_le(buf, n)
}

/// `bytes::BytesMut`, a growable byte buffer that the library appends to
/// without looking inside.
#[verifier::external_type_specification]
#[verifier::external_body]
pub struct ExBytesMut(bytes::BytesMut);

/// The bytes that a `bytes::BytesMut` holds, in order.
pub uninterp spec fn held(buf: bytes::BytesMut) -> Seq<u8>;

/// `bytes::BytesMut::extend_from_slice`: the buffer grows by `data` and keeps
/// what it held.
#[verifier::external_body]
pub(crate) fn extend_bytes(buf: &mut bytes::BytesMut, data: &[u8])
    ensures
        held(*final(buf)) == held(*old(buf)) + data@,
{
    buf.extend_from_slice(data)
}

/// `bytes::Buf::get_u8` on a byte slice: returns the first byte and moves the
/// slice past it. The call panics on an empty slice, which `requires` leaves
/// out.
#[verifier::external_body]
pub(crate) fn get_u8(cursor: &mut &[u8]) -> (v: u8)
    requires
        old(cursor)@.len() >= 1,
    ensures
        v == old(cursor)@[0],
        final(cursor)@ == old(cursor)@.skip(1),
{
    bytes::Buf::get_u8(cursor)
}

/// `bytes::Buf::get_u16_le` on a byte slice: reads the first two bytes as a
/// little-endian value and moves the slice past them. The call panics on a
/// shorter slice, which `requires` leaves out.
#[verifier::external_body]
pub(crate) fn get_u16_le(cursor: &mut &[u8]) -> (v: u16)
    requires
        old(cursor)@.len() >= 2,
    ensures
        v == u16_from_le(old(cursor)@[0], old(cursor)@[1]),
        final(cursor)@ == old(cursor)@.skip(2),
{
    bytes::Buf::get_u16_le(cursor)
}

/// `bytes::Buf::get_u32_le` on a byte slice: reads the first four bytes as a
/// little-endian value and moves the slice past them. The call panics on a
/// shorter slice, which `requires` leaves out.
#[verifier::external_body]
pub(crate) fn get_u32_le(cursor: &mut &[u8]) -> (v: u32)
    requires
        old(cursor)@.len() >= 4,
    ensures
        v == u32_from_le(old(cursor)@[0], old(cursor)@[1], old(cursor)@[2], old(cursor)@[3]),
        final(cursor)@ == old(cursor)@.skip(4),
{
    bytes::Buf::get_u32_le(cursor)
}

/// Reads a little-endian `u16` at `at`.
pub fn read_u16_le(buf: &[u8], at: usize) -> (v: u16)
    requires
        at + 2 <= buf@.len(),
    ensures
        v == u16_from_le(buf@[at as int], buf@[at + 1]),
{
    let b0: u16 = buf[at] as u16;
    let b1: u16 = buf[at + 1] as u16;
    b0 + 256 * b1
}

/// Reads a little-endian `i16` at `at`.
pub fn read_i16_le(buf: &[u8], at: usize) -> (v: i16)
    requires
        at + 2 <= buf@.len(),
    ensures
        v == i16_from_le(buf@[at as int], buf@[at + 1]),
{
    let u: i32 = buf[at] as i32 + 256 * (buf[at + 1] as i32);
    if u < 32768 {
        u as i16
    } else {
        (u - 65536) as i16
    }
}

/// Reads a little-endian `u32` at `at`.
pub fn read_u32_le(buf: &[u8], at: usize) -> (v: u32)
    requires
        at + 4 <= buf@.len(),
    ensures
        v == u32_from_le(buf@[at as int], buf@[at + 1], buf@[at + 2], buf@[at + 3]),
{
    let b0: u32 = buf[at] as u32;
    let b1: u32 = buf[at + 1] as u32;
    let b2: u32 = buf[at + 2] as u32;
    let b3: u32 = buf[at + 3] as u32;
    b0 + 256 * b1 + 65536 * b2 + 16777216 * b3
}

} // verus!
