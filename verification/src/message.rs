//! Messages read through a cursor over a received buffer.
//!
//! A registration message is a frame of type 5 whose body is the UTF-8 name
//! of the channel; every other type number reads as `Message::NULL`.

use crate::buffers::{
    be_u16, be_u32, cursor_data, cursor_get_ref, cursor_get_u16, cursor_get_u32,
    cursor_has_remaining, cursor_new, cursor_pos, cursor_position, cursor_remaining, u32_be_bytes,
};
use crate::codec::{frame_body, frame_bytes, lemma_frame_round_trip, lemma_u32_be_round_trip};
use crate::text::{decode_text, is_utf8};
use bytes::Bytes;
use std::io::Cursor;
use vstd::prelude::*;
use vstd::slice::{slice_subrange, slice_to_vec};
use vstd::utf8::{decode_utf8, encode_utf8, valid_utf8};

verus! {

/// A message read from a buffer.
pub enum Message {
    StringMsg(String),
    ByteMsg(Bytes),
    RouteMsg(Bytes),
    NULL,
}

/// The type number of registration messages.
pub open spec fn string_msg_type() -> u16 {
    5
}

/// The bytes left after the position of a cursor that reads `data` from `pos`.
pub open spec fn unread(data: Seq<u8>, pos: u64) -> Seq<u8> {
    data.skip(pos as int)
}

/// The name bytes of a registration message read at `pos`.
pub open spec fn name_bytes(data: Seq<u8>, pos: u64) -> Seq<u8> {
    let start = pos + 6;
    data.subrange(start, start + be_u32(unread(data, pos).skip(2)))
}

/// Whether `type_num` can read from `c` without running out of bytes:
/// nothing is left, or at least two bytes are.
pub open spec fn type_num_readable(c: Cursor<&[u8]>) -> bool {
    cursor_remaining(c) != 1
}

/// How many bytes are left after position `pos` of `data`.
pub open spec fn remaining_at(data: Seq<u8>, pos: u64) -> int {
    if pos <= data.len() {
        data.len() - pos
    } else {
        0
    }
}

/// Whether `Message::parse` can read `data` from `pos` without running out of
/// bytes or meeting a name that is not UTF-8.
pub open spec fn parse_readable_at(data: Seq<u8>, pos: u64) -> bool {
    let r = remaining_at(data, pos);
    ||| r == 0
    ||| r >= 2 && be_u16(unread(data, pos)) != string_msg_type()
    ||| r >= 6 && be_u16(unread(data, pos)) == string_msg_type() && pos + 6 + be_u32(
        unread(data, pos).skip(2),
    ) <= data.len() && valid_utf8(name_bytes(data, pos))
}

/// Whether `Message::parse` can read from `c`.
pub open spec fn parse_readable(c: Cursor<&[u8]>) -> bool {
    parse_readable_at(cursor_data(c), cursor_pos(c))
}

/// Reads the type number at the cursor: 0 when nothing is left, else the
/// next two bytes as a big-endian number, which the cursor moves past.
pub fn type_num(src: &mut Cursor<&[u8]>) -> (n: u16)
    requires
        type_num_readable(*old(src)),
    ensures
        cursor_data(*final(src)) == cursor_data(*old(src)),
        cursor_remaining(*old(src)) == 0 ==> n == 0 && cursor_pos(*final(src)) == cursor_pos(
            *old(src),
        ),
        cursor_remaining(*old(src)) > 0 ==> n == be_u16(
            unread(cursor_data(*old(src)), cursor_pos(*old(src))),
        ) && cursor_pos(*final(src)) == cursor_pos(*old(src)) + 2,
{
    if !cursor_has_remaining(src) {
        return 0u16;
    }
    cursor_get_u16(src)
}

impl Message {
    /// Reads a message at the cursor. A type number of 5 is followed by a
    /// big-endian `u32` length and that many bytes of UTF-8 name, which give
    /// `StringMsg`; the cursor is left just before the name. Any other type
    /// number, and an empty cursor, give `NULL`.
    pub fn parse(src: &mut Cursor<&[u8]>) -> (m: Message)
        requires
            parse_readable(*old(src)),
        ensures
            ({
                let data = cursor_data(*old(src));
                let pos = cursor_pos(*old(src));
                let r = cursor_remaining(*old(src));
                &&& cursor_data(*final(src)) == data
                &&& r == 0 ==> (m is NULL && cursor_pos(*final(src)) == pos)
                &&& r > 0 && be_u16(unread(data, pos)) != string_msg_type() ==> (m is NULL
                    && cursor_pos(*final(src)) == pos + 2)
                &&& r > 0 && be_u16(unread(data, pos)) == string_msg_type() ==> (m matches Message::StringMsg(
                    s,
                ) && s@ == decode_utf8(name_bytes(data, pos)) && cursor_pos(*final(src)) == pos
                    + 6)
            }),
    {
        let ghost data = cursor_data(*src);
        let ghost pos = cursor_pos(*src);
        let n = type_num(src);
        if n == 5u16 {
            proof {
                assert(unread(data, pos).skip(2) =~= unread(data, (pos + 2) as u64));
            }
            let b_len = cursor_get_u32(src);
            let start = cursor_position(src);
            let whole = cursor_get_ref(src);
            let whole_len = whole.len();
            proof {
                assert(whole_len == data.len());
                assert(b_len == be_u32(unread(data, pos).skip(2)));
                assert(start == pos + 6);
                assert(whole@ == data);
            }
            let begin = start as usize;
            let end = begin + b_len as usize;
            let line = slice_to_vec(slice_subrange(whole, begin, end));
            proof {
                assert(line@ == name_bytes(data, pos));
            }
            Message::StringMsg(decode_text(line))
        } else {
            Message::NULL
        }
    }
}

/// Reads the message at the front of a received buffer.
pub fn parse_msg(buffer: &[u8]) -> (m: Message)
    requires
        parse_readable_at(buffer@, 0),
    ensures
        buffer@.len() == 0 ==> m is NULL,
        buffer@.len() >= 2 && be_u16(buffer@) != string_msg_type() ==> m is NULL,
        buffer@.len() >= 2 && be_u16(buffer@) == string_msg_type() ==> (m matches Message::StringMsg(
            s,
        ) && s@ == decode_utf8(name_bytes(buffer@, 0))),
{
    let mut buf = cursor_new(buffer);
    proof {
        assert(unread(buffer@, 0) =~= buffer@);
    }
    Message::parse(&mut buf)
}

/// Whether `parse_msg` can read `buffer`: it is empty, or starts with a type
/// number other than 5, or holds a whole registration message whose name is
/// UTF-8.
pub fn can_parse_msg(buffer: &[u8]) -> (r: bool)
    ensures
        r == parse_readable_at(buffer@, 0),
{
    proof {
        assert(unread(buffer@, 0) =~= buffer@);
    }
    let len = buffer.len();
    if len == 0 {
        return true;
    }
    if len < 2 {
        return false;
    }
    let n: u16 = (buffer[0] as u16) * 256 + (buffer[1] as u16);
    if n != 5u16 {
        return true;
    }
    if len < 6 {
        return false;
    }
    let name_len: u64 = (buffer[2] as u64) * 16777216 + (buffer[3] as u64) * 65536 + (buffer[4]
        as u64) * 256 + (buffer[5] as u64);
    proof {
        assert(buffer@.skip(2)[0] == buffer@[2] && buffer@.skip(2)[1] == buffer@[3]
            && buffer@.skip(2)[2] == buffer@[4] && buffer@.skip(2)[3] == buffer@[5]);
    }
    if (len as u64) < 6 + name_len {
        return false;
    }
    let end = 6 + name_len as usize;
    let name = slice_to_vec(slice_subrange(buffer, 6, end));
    proof {
        assert(name@ == name_bytes(buffer@, 0));
    }
    is_utf8(&name)
}

/// A registration frame that a client builds for a channel name reads back,
/// from the start of a buffer, as a registration message for that name,
/// whatever follows the frame.
pub proof fn lemma_registration_round_trip(name: Seq<char>, rest: Seq<u8>)
    requires
        encode_utf8(name).len() <= u32::MAX,
    ensures
        ({
            let data = frame_bytes(string_msg_type(), encode_utf8(name)) + rest;
            &&& parse_readable_at(data, 0)
            &&& remaining_at(data, 0) > 0
            &&& be_u16(unread(data, 0)) == string_msg_type()
            &&& decode_utf8(name_bytes(data, 0)) == name
        }),
{
    broadcast use vstd::utf8::encode_utf8_valid_utf8, vstd::utf8::encode_utf8_decode_utf8;

    let body = encode_utf8(name);
    let data = frame_bytes(string_msg_type(), body) + rest;
    lemma_frame_round_trip(string_msg_type(), body, rest);
    assert(unread(data, 0) =~= data);
    assert(name_bytes(data, 0) == frame_body(data));
}

/// A registration message found at any position of a buffer: when the
/// bytes from `pos` on are the type number 5, the big-endian length of
/// `name`, `name` and then anything, a cursor at `pos` reads type 5 and takes
/// the name from exactly those bytes; with a UTF-8 name the message is
/// readable, so `parse` gives `StringMsg` of that name.
pub proof fn lemma_registration_at(data: Seq<u8>, pos: u64, name: Seq<u8>, rest: Seq<u8>)
    requires
        pos <= data.len(),
        name.len() <= u32::MAX,
        data.skip(pos as int) == seq![0u8, 5u8] + u32_be_bytes(name.len() as u32) + name + rest,
    ensures
        remaining_at(data, pos) >= 6 + name.len(),
        be_u16(unread(data, pos)) == 5u16,
        name_bytes(data, pos) == name,
        valid_utf8(name) ==> parse_readable_at(data, pos),
{
    let u = unread(data, pos);
    let l = u32_be_bytes(name.len() as u32);
    lemma_u32_be_round_trip(name.len() as u32);
    assert(u[0] == 0u8 && u[1] == 5u8);
    assert(u.skip(2)[0] == l[0] && u.skip(2)[1] == l[1] && u.skip(2)[2] == l[2] && u.skip(2)[3]
        == l[3]);
    assert(be_u32(u.skip(2)) == name.len());
    assert forall|j: int| 0 <= j < name.len() implies #[trigger] name_bytes(data, pos)[j]
        == name[j] by {
        assert(name_bytes(data, pos)[j] == data[pos + 6 + j]);
        assert(data[pos + 6 + j] == u[6 + j]);
    }
    assert(name_bytes(data, pos) =~= name);
}

/// `parse` can read an empty cursor, and a cursor whose next two bytes are a
/// type number other than 5, whatever follows.
pub proof fn lemma_readable_without_registration(data: Seq<u8>, pos: u64)
    ensures
        remaining_at(data, pos) == 0 ==> parse_readable_at(data, pos),
        remaining_at(data, pos) >= 2 && !(data[pos as int] == 0 && data[pos + 1] == 5)
            ==> parse_readable_at(data, pos),
{
    if remaining_at(data, pos) >= 2 && !(data[pos as int] == 0 && data[pos + 1] == 5) {
        let u = unread(data, pos);
        assert(u[0] == data[pos as int] && u[1] == data[pos + 1]);
        assert(be_u16(u) != 5u16);
    }
}

} // verus!
