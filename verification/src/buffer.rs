//! Byte buffers and big-endian fields.
//!
//! The codec reads from a `bytes::Bytes` and writes into a `bytes::BytesMut`.
//! Verus cannot look inside those types, so this module describes each buffer
//! by the sequence of bytes it stands for and states, without proof, what the
//! few methods that the codec calls do to that sequence. Everything else in
//! the crate is proved on top of these statements.

use vstd::prelude::*;
use bytes::{Buf, BufMut, Bytes, BytesMut};

verus! {

/// `bytes::Bytes`, a read buffer: known to Verus by name only, through
/// [`unread`].
#[verifier::external_type_specification]
#[verifier::external_body]
pub struct ExBytes(bytes::Bytes);

/// `bytes::BytesMut`, a write buffer: known to Verus by name only, through
/// [`written`].
#[verifier::external_type_specification]
#[verifier::external_body]
pub struct ExBytesMut(bytes::BytesMut);

/// The bytes of a read buffer that have not been consumed yet, next one first.
pub uninterp spec fn unread(buf: Bytes) -> Seq<u8>;

/// The bytes that a write buffer holds, oldest first.
pub uninterp spec fn written(buf: BytesMut) -> Seq<u8>;

/// The two bytes of a 16-bit number, most significant first.
pub open spec fn be16(value: u16) -> Seq<u8> {
    seq![(value / 0x100) as u8, (value % 0x100) as u8]
}

/// The four bytes of a 32-bit number, most significant first.
pub open spec fn be32(value: u32) -> Seq<u8> {
    seq![
        (value / 0x100_0000) as u8,
        (value / 0x1_0000 % 0x100) as u8,
        (value / 0x100 % 0x100) as u8,
        (value % 0x100) as u8,
    ]
}

/// The 16-bit number whose big-endian bytes stand at `at` and `at + 1`.
pub open spec fn u16_at(bytes: Seq<u8>, at: int) -> u16
    recommends
        0 <= at,
        at + 2 <= bytes.len(),
{
    (bytes[at] as int * 0x100 + bytes[at + 1] as int) as u16
}

/// The 32-bit number whose big-endian bytes stand at `at` to `at + 3`.
pub open spec fn u32_at(bytes: Seq<u8>, at: int) -> u32
    recommends
        0 <= at,
        at + 4 <= bytes.len(),
{
    (bytes[at] as int * 0x100_0000 + bytes[at + 1] as int * 0x1_0000 + bytes[at + 2] as int
        * 0x100 + bytes[at + 3] as int) as u32
}

/// Reading a 16-bit number where its big-endian bytes stand gives the number.
pub proof fn lemma_u16_at_be16(bytes: Seq<u8>, at: int, value: u16)
    requires
        0 <= at,
        at + 2 <= bytes.len(),
        bytes.subrange(at, at + 2) == be16(value),
    ensures
        u16_at(bytes, at) == value,
{
    let field = bytes.subrange(at, at + 2);
    assert(bytes[at] == field[0]);
    assert(bytes[at + 1] == field[1]);
}

/// Reading a 32-bit number where its big-endian bytes stand gives the number.
pub proof fn lemma_u32_at_be32(bytes: Seq<u8>, at: int, value: u32)
    requires
        0 <= at,
        at + 4 <= bytes.len(),
        bytes.subrange(at, at + 4) == be32(value),
    ensures
        u32_at(bytes, at) == value,
{
    let field = bytes.subrange(at, at + 4);
    assert(bytes[at] == field[0]);
    assert(bytes[at + 1] == field[1]);
    assert(bytes[at + 2] == field[2]);
    assert(bytes[at + 3] == field[3]);
}

/// The largest number of bytes that a write buffer can hold.
pub open spec fn buffer_limit() -> int {
    isize::MAX as int
}

/// `Buf::remaining` on `Bytes`: the number of bytes not yet consumed.
#[verifier::external_body]
pub(crate) fn remaining(buf: &Bytes) -> (count: usize)
    ensures
        count == unread(*buf).len(),
{
    buf.remaining()
}

/// `Buf::get_u16` on `Bytes`: consumes two bytes and returns them as a
/// big-endian number. The call panics on fewer than two bytes, which the
/// precondition rules out.
#[verifier::external_body]
pub(crate) fn get_u16(buf: &mut Bytes) -> (value: u16)
    requires
        unread(*old(buf)).len() >= 2,
    ensures
        value == u16_at(unread(*old(buf)), 0),
        unread(*final(buf)) == unread(*old(buf)).skip(2),
{
    buf.get_u16()
}

/// `Buf::get_u32` on `Bytes`: consumes four bytes and returns them as a
/// big-endian number. The call panics on fewer than four bytes, which the
/// precondition rules out.
#[verifier::external_body]
pub(crate) fn get_u32(buf: &mut Bytes) -> (value: u32)
    requires
        unread(*old(buf)).len() >= 4,
    ensures
        value == u32_at(unread(*old(buf)), 0),
        unread(*final(buf)) == unread(*old(buf)).skip(4),
{
    buf.get_u32()
}

/// `Bytes::split_to`: hands out the first `at` unconsumed bytes as a buffer of
/// their own and leaves the rest. The call panics where `at` is past the end,
/// which the precondition rules out.
#[verifier::external_body]
pub(crate) fn split_to(buf: &mut Bytes, at: usize) -> (head: Bytes)
    requires
        at <= unread(*old(buf)).len(),
    ensures
        unread(head) == unread(*old(buf)).take(at as int),
        unread(*final(buf)) == unread(*old(buf)).skip(at as int),
{
    buf.split_to(at)
}

/// `to_vec` on the slice that a `Bytes` dereferences to: a copy of the
/// unconsumed bytes, in order.
#[verifier::external_body]
pub(crate) fn to_vec(buf: &Bytes) -> (bytes: Vec<u8>)
    ensures
        bytes@ == unread(*buf),
{
    buf.to_vec()
}

/// `Clone::clone` on `Bytes`: a second handle on the same unconsumed bytes.
/// Consuming from one handle leaves the other as it was.
#[verifier::external_body]
pub(crate) fn duplicate(buf: &Bytes) -> (copy: Bytes)
    ensures
        unread(copy) == unread(*buf),
{
    buf.clone()
}

/// `BytesMut::with_capacity`: a write buffer that holds nothing.
#[verifier::external_body]
pub(crate) fn with_capacity(capacity: usize) -> (buf: BytesMut)
    ensures
        written(buf) == Seq::<u8>::empty(),
{
    BytesMut::with_capacity(capacity)
}

/// `BufMut::put_u16` on `BytesMut`: appends the two big-endian bytes of
/// `value`. The buffer grows as needed; growing panics past the limit, which
/// the precondition rules out.
#[verifier::external_body]
pub(crate) fn put_u16(buf: &mut BytesMut, value: u16)
    requires
        written(*old(buf)).len() + 2 <= buffer_limit(),
    ensures
        written(*final(buf)) == written(*old(buf)) + be16(value),
{
    buf.put_u16(value)
}

/// `BufMut::put_u32` on `BytesMut`: appends the four big-endian bytes of
/// `value`. The buffer grows as needed; growing panics past the limit, which
/// the precondition rules out.
#[verifier::external_body]
pub(crate) fn put_u32(buf: &mut BytesMut, value: u32)
    requires
        written(*old(buf)).len() + 4 <= buffer_limit(),
    ensures
        written(*final(buf)) == written(*old(buf)) + be32(value),
{
    buf.put_u32(value)
}

/// `BufMut::put_slice` on `BytesMut`: appends the bytes of `src`, in order.
/// The buffer grows as needed; growing panics past the limit, which the
/// precondition rules out.
#[verifier::external_body]
pub(crate) fn put_slice(buf: &mut BytesMut, src: &[u8])
    requires
        written(*old(buf)).len() + src@.len() <= buffer_limit(),
    ensures
        written(*final(buf)) == written(*old(buf)) + src@,
{
    buf.put_slice(src)
}

/// `AsRef::<[u8]>::as_ref` on `BytesMut`: the bytes that the buffer holds, as
/// a slice.
#[verifier::external_body]
pub(crate) fn as_slice(buf: &BytesMut) -> (bytes: &[u8])
    ensures
        bytes@ == written(*buf),
{
    buf.as_ref()
}

} // verus!
