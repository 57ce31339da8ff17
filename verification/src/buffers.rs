//! The byte containers of the `bytes` crate and of `std::io`, as this library
//! sees them: each container is declared opaque, its contents get a name, and
//! every method the library calls is a wrapper whose contract speaks of those
//! names. Nothing here is proved; each contract restates what the crate's
//! source or documentation shows.

use bytes::{Buf, BufMut, Bytes, BytesMut};
use std::io::Cursor;
use vstd::prelude::*;

verus! {

#[verifier::external_type_specification]
#[verifier::external_body]
pub struct ExBytesMut(BytesMut);

#[verifier::external_type_specification]
#[verifier::external_body]
pub struct ExBytes(Bytes);

#[verifier::external_type_specification]
#[verifier::external_body]
#[verifier::reject_recursive_types(T)]
pub struct ExCursor<T>(Cursor<T>);

/// The bytes a `BytesMut` holds that have not been read yet.
pub uninterp spec fn bytes_mut_view(b: BytesMut) -> Seq<u8>;

/// The bytes a `Bytes` holds.
pub uninterp spec fn bytes_view(b: Bytes) -> Seq<u8>;

/// The whole slice a cursor reads from.
pub uninterp spec fn cursor_data(c: Cursor<&[u8]>) -> Seq<u8>;

/// The read position of a cursor.
pub uninterp spec fn cursor_pos(c: Cursor<&[u8]>) -> u64;

/// The big-endian number that the first two bytes of `s` spell.
pub open spec fn be_u16(s: Seq<u8>) -> u16 {
    (s[0] * 256 + s[1]) as u16
}

/// The big-endian number that the first four bytes of `s` spell.
pub open spec fn be_u32(s: Seq<u8>) -> u32 {
    (s[0] * 16777216 + s[1] * 65536 + s[2] * 256 + s[3]) as u32
}

/// The two bytes of `n`, most significant first.
pub open spec fn u16_be_bytes(n: u16) -> Seq<u8> {
    seq![(n / 256) as u8, (n % 256) as u8]
}

/// The four bytes of `n`, most significant first.
pub open spec fn u32_be_bytes(n: u32) -> Seq<u8> {
    seq![
        (n / 16777216) as u8,
        ((n / 65536) % 256) as u8,
        ((n / 256) % 256) as u8,
        (n % 256) as u8,
    ]
}

/// How many bytes a cursor has left: `Buf::remaining` for `Cursor`, which is
/// the slice's length less the position, and zero past the end.
pub open spec fn cursor_remaining(c: Cursor<&[u8]>) -> int {
    if cursor_pos(c) <= cursor_data(c).len() {
        cursor_data(c).len() - cursor_pos(c)
    } else {
        0
    }
}

// ---------------------------------------------------------------- BytesMut

/// `BytesMut::len`: the number of unread bytes.
#[verifier::external_body]
pub(crate) fn bytes_mut_len(b: &BytesMut) -> (n: usize)
    ensures
        n == bytes_mut_view(*b).len(),
{
    b.len()
}

/// `Deref` of `BytesMut` to `[u8]`: the unread bytes, without consuming them.
#[verifier::external_body]
pub(crate) fn bytes_mut_as_slice(b: &BytesMut) -> (s: &[u8])
    ensures
        s@ == bytes_mut_view(*b),
{
    b.as_ref()
}

/// `Buf::has_remaining` for `BytesMut`: whether any byte is left to read.
#[verifier::external_body]
pub(crate) fn bytes_mut_has_remaining(b: &BytesMut) -> (r: bool)
    ensures
        r == (bytes_mut_view(*b).len() > 0),
{
    b.has_remaining()
}

/// `Buf::get_u16` for `BytesMut`: reads two bytes as a big-endian number and
/// consumes them; it panics on fewer than two bytes, which `requires` rules out.
#[verifier::external_body]
pub(crate) fn bytes_mut_get_u16(b: &mut BytesMut) -> (n: u16)
    requires
        bytes_mut_view(*old(b)).len() >= 2,
    ensures
        n == be_u16(bytes_mut_view(*old(b))),
        bytes_mut_view(*final(b)) == bytes_mut_view(*old(b)).skip(2),
{
    b.get_u16()
}

/// `Buf::get_u32` for `BytesMut`: reads four bytes as a big-endian number and
/// consumes them; it panics on fewer than four bytes, which `requires` rules out.
#[verifier::external_body]
pub(crate) fn bytes_mut_get_u32(b: &mut BytesMut) -> (n: u32)
    requires
        bytes_mut_view(*old(b)).len() >= 4,
    ensures
        n == be_u32(bytes_mut_view(*old(b))),
        bytes_mut_view(*final(b)) == bytes_mut_view(*old(b)).skip(4),
{
    b.get_u32()
}

/// `Buf::copy_to_bytes` for `BytesMut`, whose result is turned into a `Vec`:
/// the first `len` bytes, which are consumed; it panics when fewer are left,
/// which `requires` rules out.
#[verifier::external_body]
pub(crate) fn bytes_mut_copy_to_bytes(b: &mut BytesMut, len: usize) -> (v: Vec<u8>)
    requires
        len <= bytes_mut_view(*old(b)).len(),
    ensures
        v@ == bytes_mut_view(*old(b)).take(len as int),
        bytes_mut_view(*final(b)) == bytes_mut_view(*old(b)).skip(len as int),
{
    b.copy_to_bytes(len).to_vec()
}

/// `Buf::advance` for `BytesMut`: drops the first `cnt` bytes; it panics when
/// fewer are left, which `requires` rules out.
#[verifier::external_body]
pub(crate) fn bytes_mut_advance(b: &mut BytesMut, cnt: usize)
    requires
        cnt <= bytes_mut_view(*old(b)).len(),
    ensures
        bytes_mut_view(*final(b)) == bytes_mut_view(*old(b)).skip(cnt as int),
{
    b.advance(cnt)
}

/// `BytesMut::reserve`: makes room and leaves the contents as they were. The
/// capacity it reaches is not stated.
#[verifier::external_body]
pub(crate) fn bytes_mut_reserve(b: &mut BytesMut, additional: usize)
    requires
        bytes_mut_view(*old(b)).len() + additional <= isize::MAX,
    ensures
        bytes_mut_view(*final(b)) == bytes_mut_view(*old(b)),
{
    b.reserve(additional)
}

/// `BufMut::put` of a `Bytes` into a `BytesMut`: appends its bytes.
#[verifier::external_body]
pub(crate) fn bytes_mut_put_bytes(b: &mut BytesMut, data: Bytes)
    requires
        bytes_mut_view(*old(b)).len() + bytes_view(data).len() <= isize::MAX,
    ensures
        bytes_mut_view(*final(b)) == bytes_mut_view(*old(b)) + bytes_view(data),
{
    b.put(data)
}

/// `BufMut::put` of a `BytesMut` into a `BytesMut`: appends its unread bytes.
#[verifier::external_body]
pub(crate) fn bytes_mut_put_bytes_mut(b: &mut BytesMut, data: BytesMut)
    requires
        bytes_mut_view(*old(b)).len() + bytes_mut_view(data).len() <= isize::MAX,
    ensures
        bytes_mut_view(*final(b)) == bytes_mut_view(*old(b)) + bytes_mut_view(data),
{
    b.put(data)
}

// ---------------------------------------------------------------- Bytes

/// `Bytes::len`: the number of bytes held.
#[verifier::external_body]
pub(crate) fn bytes_len(b: &Bytes) -> (n: usize)
    ensures
        n == bytes_view(*b).len(),
{
    b.len()
}

// ---------------------------------------------------------------- Vec<u8> as BufMut

/// `BufMut::put_u8` for `Vec<u8>`: appends one byte.
#[verifier::external_body]
pub(crate) fn vec_put_u8(v: &mut Vec<u8>, n: u8)
    requires
        old(v)@.len() + 1 <= isize::MAX,
    ensures
        final(v)@ == old(v)@.push(n),
{
    v.put_u8(n)
}

/// `BufMut::put_u16` for `Vec<u8>`: appends the two bytes of `n`, most
/// significant first.
#[verifier::external_body]
pub(crate) fn vec_put_u16(v: &mut Vec<u8>, n: u16)
    requires
        old(v)@.len() + 2 <= isize::MAX,
    ensures
        final(v)@ == old(v)@ + u16_be_bytes(n),
{
    v.put_u16(n)
}

/// `BufMut::put_u32` for `Vec<u8>`: appends the four bytes of `n`, most
/// significant first.
#[verifier::external_body]
pub(crate) fn vec_put_u32(v: &mut Vec<u8>, n: u32)
    requires
        old(v)@.len() + 4 <= isize::MAX,
    ensures
        final(v)@ == old(v)@ + u32_be_bytes(n),
{
    v.put_u32(n)
}

/// `BufMut::put` of a byte slice into a `Vec<u8>`: appends the slice.
#[verifier::external_body]
pub(crate) fn vec_put_slice(v: &mut Vec<u8>, s: &[u8])
    requires
        old(v)@.len() + s@.len() <= isize::MAX,
    ensures
        final(v)@ == old(v)@ + s@,
{
    v.put(s)
}

// ---------------------------------------------------------------- Cursor

/// `std::io::Cursor::new`: a cursor at position zero over `data`.
#[verifier::external_body]
pub(crate) fn cursor_new(data: &[u8]) -> (c: Cursor<&[u8]>)
    ensures
        cursor_data(c) == data@,
        cursor_pos(c) == 0,
{
    Cursor::new(data)
}

/// `std::io::Cursor::position`.
#[verifier::external_body]
pub(crate) fn cursor_position(c: &Cursor<&[u8]>) -> (p: u64)
    ensures
        p == cursor_pos(*c),
{
    c.position()
}

/// `std::io::Cursor::get_ref`: the slice the cursor reads from.
#[verifier::external_body]
pub(crate) fn cursor_get_ref<'a>(c: &'a Cursor<&[u8]>) -> (s: &'a [u8])
    ensures
        s@ == cursor_data(*c),
{
    c.get_ref()
}

/// `Buf::has_remaining` for `Cursor`: whether the position is before the end.
#[verifier::external_body]
pub(crate) fn cursor_has_remaining(c: &Cursor<&[u8]>) -> (r: bool)
    ensures
        r == (cursor_remaining(*c) > 0),
{
    c.has_remaining()
}

/// `Buf::get_u16` for `Cursor`: reads two bytes at the position as a
/// big-endian number and moves past them; it panics on fewer than two bytes
/// left, which `requires` rules out.
#[verifier::external_body]
pub(crate) fn cursor_get_u16(c: &mut Cursor<&[u8]>) -> (n: u16)
    requires
        cursor_remaining(*old(c)) >= 2,
    ensures
        n == be_u16(cursor_data(*old(c)).skip(cursor_pos(*old(c)) as int)),
        cursor_data(*final(c)) == cursor_data(*old(c)),
        cursor_pos(*final(c)) == cursor_pos(*old(c)) + 2,
{
    c.get_u16()
}

/// `Buf::get_u32` for `Cursor`: reads four bytes at the position as a
/// big-endian number and moves past them; it panics on fewer than four bytes
/// left, which `requires` rules out.
#[verifier::external_body]
pub(crate) fn cursor_get_u32(c: &mut Cursor<&[u8]>) -> (n: u32)
    requires
        cursor_remaining(*old(c)) >= 4,
    ensures
        n == be_u32(cursor_data(*old(c)).skip(cursor_pos(*old(c)) as int)),
        cursor_data(*final(c)) == cursor_data(*old(c)),
        cursor_pos(*final(c)) == cursor_pos(*old(c)) + 4,
{
    c.get_u32()
}

} // verus!
