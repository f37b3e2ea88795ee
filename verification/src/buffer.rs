//! The byte buffers of the `bytes` crate, as far as this library uses them.
//! Each function here makes one call into `bytes` and is trusted to do what
//! that crate's documentation and source say; everything else is verified.
use vstd::prelude::*;
use bytes::{Buf, BufMut, Bytes, BytesMut};
use crate::wire::{be_bytes, be_value, to_signed, to_unsigned};

verus! {

#[verifier::external_type_specification]
#[verifier::external_body]
pub struct ExBytesMut(bytes::BytesMut);

#[verifier::external_type_specification]
#[verifier::external_body]
pub struct ExBytes(bytes::Bytes);

/// The bytes a `BytesMut` holds, from the read position to the end.
pub uninterp spec fn bytes_mut_contents(b: BytesMut) -> Seq<u8>;

/// The bytes a `Bytes` holds.
pub uninterp spec fn bytes_contents(b: Bytes) -> Seq<u8>;

/// A buffer can grow by `n` bytes without passing `isize::MAX`, beyond which
/// the `bytes` writers panic.
pub open spec fn room_for(b: BytesMut, n: int) -> bool {
    bytes_mut_contents(b).len() + n <= isize::MAX
}

/// `BytesMut::new`: an empty buffer.
#[verifier::external_body]
pub(crate) fn bm_new() -> (r: BytesMut)
    ensures
        bytes_mut_contents(r) == Seq::<u8>::empty(),
{
    BytesMut::new()
}

/// `BytesMut::with_capacity`: an empty buffer; the allocation panics past `isize::MAX` bytes.
#[verifier::external_body]
pub(crate) fn bm_with_capacity(capacity: usize) -> (r: BytesMut)
    requires
        capacity <= isize::MAX,
    ensures
        bytes_mut_contents(r) == Seq::<u8>::empty(),
{
    BytesMut::with_capacity(capacity)
}

/// `BytesMut::len`: the number of bytes held.
#[verifier::external_body]
pub(crate) fn bm_len(b: &BytesMut) -> (r: usize)
    ensures
        r == bytes_mut_contents(*b).len(),
{
    b.len()
}

/// `Buf::remaining` of a `BytesMut`: the number of bytes left to read, all of them.
#[verifier::external_body]
pub(crate) fn bm_remaining(b: &BytesMut) -> (r: usize)
    ensures
        r == bytes_mut_contents(*b).len(),
{
    b.remaining()
}

/// The bytes of a `BytesMut` as a slice (its `Deref` to `[u8]`).
#[verifier::external_body]
pub(crate) fn bm_as_slice(b: &BytesMut) -> (r: &[u8])
    ensures
        r@ == bytes_mut_contents(*b),
{
    b.as_ref()
}

/// `BytesMut::split`: takes all bytes out into a new buffer, leaving this one empty.
#[verifier::external_body]
pub(crate) fn bm_split(b: &mut BytesMut) -> (r: BytesMut)
    ensures
        bytes_mut_contents(r) == bytes_mut_contents(*old(b)),
        bytes_mut_contents(*final(b)) == Seq::<u8>::empty(),
{
    b.split()
}

/// `BytesMut::freeze`: the same bytes, immutable.
#[verifier::external_body]
pub(crate) fn bm_freeze(b: BytesMut) -> (r: Bytes)
    ensures
        bytes_contents(r) == bytes_mut_contents(b),
{
    b.freeze()
}

/// `BufMut::put` with another `BytesMut`: appends all of its bytes.
#[verifier::external_body]
pub(crate) fn bm_put(b: &mut BytesMut, src: BytesMut)
    requires
        room_for(*old(b), bytes_mut_contents(src).len() as int),
    ensures
        bytes_mut_contents(*final(b)) == bytes_mut_contents(*old(b)) + bytes_mut_contents(src),
{
    b.put(src)
}

/// `BufMut::put` with a byte slice: appends the slice.
#[verifier::external_body]
pub(crate) fn bm_put_bytes(b: &mut BytesMut, src: &[u8])
    requires
        room_for(*old(b), src@.len() as int),
    ensures
        bytes_mut_contents(*final(b)) == bytes_mut_contents(*old(b)) + src@,
{
    b.put(src)
}

/// `BufMut::put_u8`: appends the byte.
#[verifier::external_body]
pub(crate) fn bm_put_u8(b: &mut BytesMut, n: u8)
    requires
        room_for(*old(b), 1),
    ensures
        bytes_mut_contents(*final(b)) == bytes_mut_contents(*old(b)).push(n),
{
    b.put_u8(n)
}

/// `BufMut::put_i8`: appends the byte's bits.
#[verifier::external_body]
pub(crate) fn bm_put_i8(b: &mut BytesMut, n: i8)
    requires
        room_for(*old(b), 1),
    ensures
        bytes_mut_contents(*final(b)) == bytes_mut_contents(*old(b)) + be_bytes(to_unsigned(n as int, 1), 1),
{
    b.put_i8(n)
}

/// `BufMut::put_i16`: appends the value big-endian.
#[verifier::external_body]
pub(crate) fn bm_put_i16(b: &mut BytesMut, n: i16)
    requires
        room_for(*old(b), 2),
    ensures
        bytes_mut_contents(*final(b)) == bytes_mut_contents(*old(b)) + be_bytes(to_unsigned(n as int, 2), 2),
{
    b.put_i16(n)
}

/// `BufMut::put_u16`: appends the value big-endian.
#[verifier::external_body]
pub(crate) fn bm_put_u16(b: &mut BytesMut, n: u16)
    requires
        room_for(*old(b), 2),
    ensures
        bytes_mut_contents(*final(b)) == bytes_mut_contents(*old(b)) + be_bytes(n as nat, 2),
{
    b.put_u16(n)
}

/// `BufMut::put_i32`: appends the value big-endian.
#[verifier::external_body]
pub(crate) fn bm_put_i32(b: &mut BytesMut, n: i32)
    requires
        room_for(*old(b), 4),
    ensures
        bytes_mut_contents(*final(b)) == bytes_mut_contents(*old(b)) + be_bytes(to_unsigned(n as int, 4), 4),
{
    b.put_i32(n)
}

/// `BufMut::put_i64`: appends the value big-endian.
#[verifier::external_body]
pub(crate) fn bm_put_i64(b: &mut BytesMut, n: i64)
    requires
        room_for(*old(b), 8),
    ensures
        bytes_mut_contents(*final(b)) == bytes_mut_contents(*old(b)) + be_bytes(to_unsigned(n as int, 8), 8),
{
    b.put_i64(n)
}

/// `Buf::get_u8`: takes the first byte; panics on an empty buffer.
#[verifier::external_body]
pub(crate) fn bm_get_u8(b: &mut BytesMut) -> (r: u8)
    requires
        bytes_mut_contents(*old(b)).len() >= 1,
    ensures
        r == bytes_mut_contents(*old(b))[0],
        bytes_mut_contents(*final(b)) == bytes_mut_contents(*old(b)).skip(1),
{
    b.get_u8()
}

/// `Buf::get_i8`: takes the first byte as signed; panics on an empty buffer.
#[verifier::external_body]
pub(crate) fn bm_get_i8(b: &mut BytesMut) -> (r: i8)
    requires
        bytes_mut_contents(*old(b)).len() >= 1,
    ensures
        r == to_signed(be_value(bytes_mut_contents(*old(b)).take(1)), 1),
        bytes_mut_contents(*final(b)) == bytes_mut_contents(*old(b)).skip(1),
{
    b.get_i8()
}

/// `Buf::get_i16`: takes two bytes, big-endian signed; panics when fewer remain.
#[verifier::external_body]
pub(crate) fn bm_get_i16(b: &mut BytesMut) -> (r: i16)
    requires
        bytes_mut_contents(*old(b)).len() >= 2,
    ensures
        r == to_signed(be_value(bytes_mut_contents(*old(b)).take(2)), 2),
        bytes_mut_contents(*final(b)) == bytes_mut_contents(*old(b)).skip(2),
{
    b.get_i16()
}

/// `Buf::get_u16`: takes two bytes, big-endian; panics when fewer remain.
#[verifier::external_body]
pub(crate) fn bm_get_u16(b: &mut BytesMut) -> (r: u16)
    requires
        bytes_mut_contents(*old(b)).len() >= 2,
    ensures
        r == be_value(bytes_mut_contents(*old(b)).take(2)),
        bytes_mut_contents(*final(b)) == bytes_mut_contents(*old(b)).skip(2),
{
    b.get_u16()
}

/// `Buf::get_i32`: takes four bytes, big-endian signed; panics when fewer remain.
#[verifier::external_body]
pub(crate) fn bm_get_i32(b: &mut BytesMut) -> (r: i32)
    requires
        bytes_mut_contents(*old(b)).len() >= 4,
    ensures
        r == to_signed(be_value(bytes_mut_contents(*old(b)).take(4)), 4),
        bytes_mut_contents(*final(b)) == bytes_mut_contents(*old(b)).skip(4),
{
    b.get_i32()
}

/// `Buf::get_i64`: takes eight bytes, big-endian signed; panics when fewer remain.
#[verifier::external_body]
pub(crate) fn bm_get_i64(b: &mut BytesMut) -> (r: i64)
    requires
        bytes_mut_contents(*old(b)).len() >= 8,
    ensures
        r == to_signed(be_value(bytes_mut_contents(*old(b)).take(8)), 8),
        bytes_mut_contents(*final(b)) == bytes_mut_contents(*old(b)).skip(8),
{
    b.get_i64()
}

} // verus!
