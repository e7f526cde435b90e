//! The byte buffers of the `bytes` crate, as the codec uses them.
//!
//! Nothing in this module is proved. Each function below makes one call into
//! `bytes`, and its contract says what that call does to the bytes that the
//! buffers hold. The rest of the crate is verified against these contracts.

use vstd::prelude::*;
use vstd::utf8::encode_utf8;
use bytes::{Buf, BufMut, Bytes, BytesMut};

verus! {

#[verifier::external_type_specification]
#[verifier::external_body]
pub struct ExBytes(bytes::Bytes);

#[verifier::external_type_specification]
#[verifier::external_body]
pub struct ExBytesMut(bytes::BytesMut);

/// The bytes that a `Bytes` holds, from the next one to be read to the last.
pub uninterp spec fn bytes_seq(b: Bytes) -> Seq<u8>;

/// The bytes that a `BytesMut` holds, from the first one written to the last.
pub uninterp spec fn bytes_mut_seq(b: BytesMut) -> Seq<u8>;

/// The signed 32-bit integer that four bytes spell in little-endian order.
pub open spec fn i32_from_le(b: Seq<u8>) -> int
    recommends
        b.len() == 4,
{
    let u: int = b[0] as int + 0x100 * (b[1] as int) + 0x1_0000 * (b[2] as int) + 0x100_0000 * (
    b[3] as int);
    if u < 0x8000_0000 {
        u
    } else {
        u - 0x1_0000_0000
    }
}

/// The four bytes that spell a signed 32-bit integer in little-endian order.
pub open spec fn i32_to_le(v: int) -> Seq<u8>
    recommends
        i32::MIN <= v <= i32::MAX,
{
    let u: int = if v < 0 {
        v + 0x1_0000_0000
    } else {
        v
    };
    seq![
        (u % 0x100) as u8,
        (u / 0x100 % 0x100) as u8,
        (u / 0x1_0000 % 0x100) as u8,
        (u / 0x100_0000 % 0x100) as u8,
    ]
}

/// Reading back the bytes of an integer gives the integer.
pub proof fn lemma_i32_le_round_trip(v: int)
    requires
        i32::MIN <= v <= i32::MAX,
    ensures
        i32_to_le(v).len() == 4,
        i32_from_le(i32_to_le(v)) == v,
{
}

/// `Bytes::from(String)`: the buffer holds the UTF-8 bytes of the string.
#[verifier::external_body]
pub(crate) fn bytes_from_string(s: String) -> (b: Bytes)
    ensures
        bytes_seq(b) == encode_utf8(s@),
{
    Bytes::from(s)
}

/// `Bytes::copy_from_slice`: the buffer holds a copy of the slice.
#[verifier::external_body]
pub(crate) fn bytes_copy_from_slice(data: &[u8]) -> (b: Bytes)
    ensures
        bytes_seq(b) == data@,
{
    Bytes::copy_from_slice(data)
}

/// `Bytes::len`: the number of bytes that the buffer holds.
#[verifier::external_body]
pub(crate) fn bytes_len(b: &Bytes) -> (n: usize)
    ensures
        n == bytes_seq(*b).len(),
{
    b.len()
}

/// `Deref` of `Bytes`: the bytes that the buffer holds, as a slice.
#[verifier::external_body]
pub(crate) fn bytes_as_slice(b: &Bytes) -> (s: &[u8])
    ensures
        s@ == bytes_seq(*b),
{
    std::ops::Deref::deref(b)
}

/// `Clone` of `Bytes`: a second handle on the same bytes.
#[verifier::external_body]
pub(crate) fn bytes_clone(b: &Bytes) -> (c: Bytes)
    ensures
        bytes_seq(c) == bytes_seq(*b),
{
    b.clone()
}

/// `Buf::get_i32_le` on `Bytes`: takes four bytes off the front and reads
/// them as a little-endian integer. The call panics on a buffer with fewer
/// than four bytes, which the precondition leaves out.
#[verifier::external_body]
pub(crate) fn get_i32_le(buf: &mut Bytes) -> (v: i32)
    requires
        bytes_seq(*old(buf)).len() >= 4,
    ensures
        v == i32_from_le(bytes_seq(*old(buf)).take(4)),
        bytes_seq(*final(buf)) == bytes_seq(*old(buf)).skip(4),
{
    buf.get_i32_le()
}

/// `Buf::copy_to_bytes` on `Bytes`: takes `len` bytes off the front and
/// returns them. The call panics where `len` is more than the buffer holds,
/// which the precondition leaves out.
#[verifier::external_body]
pub(crate) fn copy_to_bytes(buf: &mut Bytes, len: usize) -> (front: Bytes)
    requires
        len <= bytes_seq(*old(buf)).len(),
    ensures
        bytes_seq(front) == bytes_seq(*old(buf)).take(len as int),
        bytes_seq(*final(buf)) == bytes_seq(*old(buf)).skip(len as int),
{
    buf.copy_to_bytes(len)
}

/// `BytesMut::with_capacity`: an empty buffer.
#[verifier::external_body]
pub(crate) fn bytes_mut_with_capacity(capacity: usize) -> (b: BytesMut)
    requires
        capacity <= isize::MAX,
    ensures
        bytes_mut_seq(b) == Seq::<u8>::empty(),
{
    BytesMut::with_capacity(capacity)
}

/// `BufMut::put_i32_le` on `BytesMut`: appends the four little-endian bytes
/// of the integer. The buffer grows as needed; the precondition keeps its
/// length within what an allocation can hold.
#[verifier::external_body]
pub(crate) fn put_i32_le(buf: &mut BytesMut, n: i32)
    requires
        bytes_mut_seq(*old(buf)).len() + 4 <= isize::MAX,
    ensures
        bytes_mut_seq(*final(buf)) == bytes_mut_seq(*old(buf)) + i32_to_le(n as int),
{
    buf.put_i32_le(n)
}

/// `BufMut::put_u8` on `BytesMut`: appends one byte.
#[verifier::external_body]
pub(crate) fn put_u8(buf: &mut BytesMut, n: u8)
    requires
        bytes_mut_seq(*old(buf)).len() + 1 <= isize::MAX,
    ensures
        bytes_mut_seq(*final(buf)) == bytes_mut_seq(*old(buf)).push(n),
{
    buf.put_u8(n)
}

/// `BufMut::put` on `BytesMut`, with a `Bytes` as its source: appends all
/// the bytes that the source holds.
#[verifier::external_body]
pub(crate) fn put_all(buf: &mut BytesMut, src: Bytes)
    requires
        bytes_mut_seq(*old(buf)).len() + bytes_seq(src).len() <= isize::MAX,
    ensures
        bytes_mut_seq(*final(buf)) == bytes_mut_seq(*old(buf)) + bytes_seq(src),
{
    buf.put(src)
}

} // verus!
