//! The frame codec.
//!
//! A frame on the wire is a big-endian `u16` type number, a big-endian `u32`
//! body length, the body, and a two-byte trailer (`\r\n` as clients write it).
//! Valid type numbers are 1 to 5.

use crate::buffers::{
    be_u16, be_u32, bytes_len, bytes_mut_advance, bytes_mut_as_slice, bytes_mut_copy_to_bytes,
    bytes_mut_get_u16, bytes_mut_get_u32, bytes_mut_has_remaining, bytes_mut_len,
    bytes_mut_put_bytes, bytes_mut_put_bytes_mut, bytes_mut_reserve, bytes_mut_view, bytes_view,
    u16_be_bytes, u32_be_bytes, vec_put_slice, vec_put_u16, vec_put_u32, vec_put_u8,
};
use bytes::{Bytes, BytesMut};
use vstd::prelude::*;
use vstd::string::StringExecFns;

verus! {

/// An error met while encoding or decoding a frame.
#[derive(Debug)]
pub enum PongCodecError {
    EndOfBuf,
    WrongTypeNum,
    /// An I/O error.
    Io(std::io::Error),
}

#[verifier::external_type_specification]
#[verifier::external_body]
pub struct ExIoError(std::io::Error);

impl From<std::io::Error> for PongCodecError {
    fn from(e: std::io::Error) -> (r: PongCodecError) {
        PongCodecError::Io(e)
    }
}

impl vstd::std_specs::convert::FromSpecImpl<std::io::Error> for PongCodecError {
    open spec fn obeys_from_spec() -> bool {
        true
    }

    open spec fn from_spec(e: std::io::Error) -> PongCodecError {
        PongCodecError::Io(e)
    }
}

/// The text of an I/O error, as its `Display` writes it. The text depends on
/// the platform and is not stated.
#[verifier::external_body]
fn io_error_text(e: &std::io::Error) -> String {
    format!("{}", e)
}

/// The text that describes `PongCodecError::EndOfBuf`.
pub open spec fn end_of_buf_text() -> Seq<char> {
    seq!['e', 'n', 'd', ' ', 'o', 'f', ' ', 'b', 'u', 'f']
}

/// The text that describes `PongCodecError::WrongTypeNum`.
pub open spec fn wrong_type_num_text() -> Seq<char> {
    seq!['w', 'r', 'i', 't', 'e', ' ', 'n', 'u', 'm']
}

impl PongCodecError {
    /// The text that describes the error; an I/O error is described by its
    /// own text.
    pub fn describe(&self) -> (s: String)
        ensures
            *self is EndOfBuf ==> s@ == end_of_buf_text(),
            *self is WrongTypeNum ==> s@ == wrong_type_num_text(),
    {
        match self {
            PongCodecError::EndOfBuf => {
                let s = String::from_str("end of buf");
                proof {
                    reveal_strlit("end of buf");
                    assert(s@ =~= end_of_buf_text());
                }
                s
            },
            PongCodecError::WrongTypeNum => {
                let s = String::from_str("write num");
                proof {
                    reveal_strlit("write num");
                    assert(s@ =~= wrong_type_num_text());
                }
                s
            },
            PongCodecError::Io(e) => io_error_text(e),
        }
    }
}

/// Whether `n` is a type number that the protocol knows.
pub open spec fn valid_type_num(n: u16) -> bool {
    0 < n < 6
}

/// Checks a frame's type number.
pub fn check_type_num(n: u16) -> (r: bool)
    ensures
        r == valid_type_num(n),
{
    if n > 0 && n < 6 {
        true
    } else {
        false
    }
}

/// Bytes of a frame before its body: type number and body length.
pub open spec fn header_len() -> int {
    6
}

/// Bytes of a frame after its body.
pub open spec fn trailer_len() -> int {
    2
}

/// The body length that the header at the front of `s` announces.
pub open spec fn announced_len(s: Seq<u8>) -> int {
    be_u32(s.skip(2)) as int
}

/// Whether decoding a buffer that holds `s` runs to its end without reading
/// past the buffer: the buffer is empty, or it starts with an unknown type
/// number, or it holds a whole frame.
pub open spec fn decodable(s: Seq<u8>) -> bool {
    ||| s.len() == 0
    ||| s.len() >= 2 && !valid_type_num(be_u16(s))
    ||| s.len() >= 2 && valid_type_num(be_u16(s)) && s.len() >= header_len() && s.len()
        >= header_len() + announced_len(s) + trailer_len()
}

/// The body of the frame at the front of `s`.
pub open spec fn frame_body(s: Seq<u8>) -> Seq<u8> {
    s.subrange(header_len(), header_len() + announced_len(s))
}

/// The number of bytes the frame at the front of `s` takes.
pub open spec fn frame_len(s: Seq<u8>) -> int {
    header_len() + announced_len(s) + trailer_len()
}

/// The bytes of a frame of type `type_num` around `body`, as a client writes
/// it; the length field holds the body's length cut to 32 bits.
pub open spec fn frame_bytes(type_num: u16, body: Seq<u8>) -> Seq<u8> {
    u16_be_bytes(type_num) + u32_be_bytes(body.len() as u32) + body + seq![13u8, 10u8]
}

/// The body of a route frame: the name of the receiving channel, a space and
/// the message.
pub open spec fn route_bytes(to: Seq<u8>, msg: Seq<u8>) -> Seq<u8> {
    to + seq![32u8] + msg
}

/// The codec for frames.
pub struct PongCodec;

impl PongCodec {
    /// Decodes the frame at the front of `src`.
    ///
    /// An empty buffer gives `Ok(None)` and stays as it is. Otherwise the type
    /// number is read; an unknown one gives `Err(WrongTypeNum)` with the two
    /// bytes of the type number consumed. A known one gives the type number and
    /// the body, and the whole frame, trailer included, is consumed.
    pub fn decode(&mut self, src: &mut BytesMut) -> (r: Result<
        Option<(u16, Vec<u8>)>,
        PongCodecError,
    >)
        requires
            decodable(bytes_mut_view(*old(src))),
        ensures
            ({
                let s = bytes_mut_view(*old(src));
                let t = bytes_mut_view(*final(src));
                &&& s.len() == 0 ==> (r matches Ok(None) && t == s)
                &&& s.len() > 0 && !valid_type_num(be_u16(s)) ==> (r matches Err(
                    PongCodecError::WrongTypeNum,
                ) && t == s.skip(2))
                &&& s.len() > 0 && valid_type_num(be_u16(s)) ==> (r matches Ok(Some((n, body)))
                    && n == be_u16(s) && body@ == frame_body(s) && t == s.skip(frame_len(s)))
            }),
    {
        let ghost s = bytes_mut_view(*src);
        if !bytes_mut_has_remaining(src) {
            return Ok(None);
        }
        let num = bytes_mut_get_u16(src);
        if check_type_num(num) {
            let body_len = bytes_mut_get_u32(src) as usize;
            proof {
                assert(s.skip(2).skip(4) =~= s.skip(6));
                assert(s.skip(2)[0] == s[2] && s.skip(2)[1] == s[3]);
            }
            let body = bytes_mut_copy_to_bytes(src, body_len);
            bytes_mut_advance(src, 2);
            proof {
                assert(body@ =~= frame_body(s));
                assert(s.skip(6).skip(body_len as int).skip(2) =~= s.skip(frame_len(s)));
            }
            Ok(Some((num, body)))
        } else {
            Err(PongCodecError::WrongTypeNum)
        }
    }

    /// Whether `decode` can run on `src`, that is, whether `src` is empty,
    /// starts with an unknown type number, or holds a whole frame.
    pub fn can_decode(&self, src: &BytesMut) -> (r: bool)
        ensures
            r == decodable(bytes_mut_view(*src)),
    {
        let s = bytes_mut_as_slice(src);
        let len = s.len();
        if len == 0 {
            return true;
        }
        if len < 2 {
            return false;
        }
        let num: u16 = (s[0] as u16) * 256 + (s[1] as u16);
        if !check_type_num(num) {
            return true;
        }
        if len < 6 {
            return false;
        }
        let body_len: u64 = (s[2] as u64) * 16777216 + (s[3] as u64) * 65536 + (s[4] as u64) * 256
            + (s[5] as u64);
        proof {
            assert(s@.skip(2)[0] == s@[2] && s@.skip(2)[1] == s@[3] && s@.skip(2)[2] == s@[4]
                && s@.skip(2)[3] == s@[5]);
        }
        (len as u64) >= 8 + body_len
    }

    /// Whether `encode` can append `data` to `buf`: the result stays within
    /// the largest size an allocation can have.
    pub fn can_encode(&self, data: &Bytes, buf: &BytesMut) -> (r: bool)
        ensures
            r == (bytes_mut_view(*buf).len() + bytes_view(*data).len() <= isize::MAX),
    {
        let have = bytes_mut_len(buf);
        let more = bytes_len(data);
        have <= isize::MAX as usize && more <= isize::MAX as usize - have
    }

    /// Whether `encode_bytes_mut` can append `data` to `dst`: the result stays
    /// within the largest size an allocation can have.
    pub fn can_encode_bytes_mut(&self, data: &BytesMut, dst: &BytesMut) -> (r: bool)
        ensures
            r == (bytes_mut_view(*dst).len() + bytes_mut_view(*data).len() <= isize::MAX),
    {
        let have = bytes_mut_len(dst);
        let more = bytes_mut_len(data);
        have <= isize::MAX as usize && more <= isize::MAX as usize - have
    }

    /// Appends `data` to `buf`.
    pub fn encode(&mut self, data: Bytes, buf: &mut BytesMut) -> (r: Result<(), PongCodecError>)
        requires
            bytes_mut_view(*old(buf)).len() + bytes_view(data).len() <= isize::MAX,
        ensures
            r is Ok,
            bytes_mut_view(*final(buf)) == bytes_mut_view(*old(buf)) + bytes_view(data),
    {
        bytes_mut_reserve(buf, bytes_len(&data));
        bytes_mut_put_bytes(buf, data);
        Ok(())
    }

    /// Appends the unread bytes of `data` to `dst`.
    pub fn encode_bytes_mut(&mut self, data: BytesMut, dst: &mut BytesMut) -> (r: Result<
        (),
        PongCodecError,
    >)
        requires
            bytes_mut_view(*old(dst)).len() + bytes_mut_view(data).len() <= isize::MAX,
        ensures
            r is Ok,
            bytes_mut_view(*final(dst)) == bytes_mut_view(*old(dst)) + bytes_mut_view(data),
    {
        bytes_mut_reserve(dst, bytes_mut_len(&data));
        bytes_mut_put_bytes_mut(dst, data);
        Ok(())
    }
}

/// Builds the frame of type `type_num` around `body`, as a client sends it.
pub fn encode_frame(type_num: u16, body: &[u8]) -> (frame: Vec<u8>)
    requires
        body@.len() + 8 <= isize::MAX,
    ensures
        frame@ == frame_bytes(type_num, body@),
{
    let mut l: Vec<u8> = Vec::new();
    vec_put_u16(&mut l, type_num);
    let len: u32 = #[verifier::truncate] (body.len() as u32);
    vec_put_u32(&mut l, len);
    vec_put_slice(&mut l, body);
    vec_put_u8(&mut l, 13u8);
    vec_put_u8(&mut l, 10u8);
    proof {
        assert(l@ =~= frame_bytes(type_num, body@));
    }
    l
}

/// Builds the body of a route frame: `to`, a space, then `msg`.
pub fn route_body(to: &[u8], msg: &[u8]) -> (body: Vec<u8>)
    requires
        to@.len() + msg@.len() + 1 <= isize::MAX,
    ensures
        body@ == route_bytes(to@, msg@),
{
    let mut l: Vec<u8> = Vec::new();
    vec_put_slice(&mut l, to);
    vec_put_u8(&mut l, 32u8);
    vec_put_slice(&mut l, msg);
    proof {
        assert(l@ =~= route_bytes(to@, msg@));
    }
    l
}

/// The two bytes that `u16_be_bytes` writes read back as the same number.
pub proof fn lemma_u16_be_round_trip(n: u16)
    ensures
        be_u16(u16_be_bytes(n)) == n,
{
    let b = u16_be_bytes(n);
    assert(b[0] == n / 256 && b[1] == n % 256);
    assert((n / 256) * 256 + n % 256 == n) by (nonlinear_arith);
}

/// The four bytes that `u32_be_bytes` writes read back as the same number.
pub proof fn lemma_u32_be_round_trip(n: u32)
    ensures
        be_u32(u32_be_bytes(n)) == n,
{
    let b = u32_be_bytes(n);
    assert(n / 16777216 < 256) by (nonlinear_arith);
    assert(b[0] == n / 16777216 && b[1] == (n / 65536) % 256 && b[2] == (n / 256) % 256 && b[3]
        == n % 256);
    assert((n / 16777216) * 16777216 + ((n / 65536) % 256) * 65536 + ((n / 256) % 256) * 256 + n
        % 256 == n) by (nonlinear_arith);
}

/// A frame built by `encode_frame` decodes to the type number and body it was
/// built from, and decoding it consumes exactly that frame, whatever follows.
pub proof fn lemma_frame_round_trip(type_num: u16, body: Seq<u8>, rest: Seq<u8>)
    requires
        valid_type_num(type_num),
        body.len() <= u32::MAX,
    ensures
        ({
            let s = frame_bytes(type_num, body) + rest;
            &&& decodable(s)
            &&& s.len() > 0
            &&& be_u16(s) == type_num
            &&& frame_body(s) == body
            &&& s.skip(frame_len(s)) == rest
        }),
{
    let s = frame_bytes(type_num, body) + rest;
    let h = u16_be_bytes(type_num);
    let l = u32_be_bytes(body.len() as u32);
    lemma_u16_be_round_trip(type_num);
    lemma_u32_be_round_trip(body.len() as u32);
    assert(s[0] == h[0] && s[1] == h[1]);
    assert(s.skip(2)[0] == l[0] && s.skip(2)[1] == l[1] && s.skip(2)[2] == l[2] && s.skip(2)[3]
        == l[3]);
    assert(announced_len(s) == body.len());
    assert(frame_body(s) =~= body);
    assert(s.skip(frame_len(s)) =~= rest);
}

/// The layout of a frame as a client builds it: the type number in two
/// big-endian bytes, the body length in four, the body, then the trailer
/// `\r\n` (13, 10), for every type number and body.
pub proof fn lemma_frame_layout(type_num: u16, body: Seq<u8>)
    ensures
        ({
            let f = frame_bytes(type_num, body);
            &&& f.len() == body.len() + 8
            &&& f[0] == (type_num / 256) as u8
            &&& f[1] == (type_num % 256) as u8
            &&& f.subrange(2, 6) == u32_be_bytes(body.len() as u32)
            &&& f.subrange(6, 6 + body.len() as int) == body
            &&& f[6 + body.len() as int] == 13u8
            &&& f[7 + body.len() as int] == 10u8
        }),
{
    let f = frame_bytes(type_num, body);
    assert(f.subrange(2, 6) =~= u32_be_bytes(body.len() as u32));
    assert(f.subrange(6, 6 + body.len() as int) =~= body);
}

/// The type numbers the protocol knows are exactly 1 to 5.
pub proof fn lemma_valid_type_nums(n: u16)
    ensures
        valid_type_num(n) <==> (n == 1 || n == 2 || n == 3 || n == 4 || n == 5),
{
}

/// `decode` can run on an empty buffer, and on any buffer that starts with
/// a type number outside 1 to 5, whatever follows it.
pub proof fn lemma_decodable_without_frame(s: Seq<u8>)
    ensures
        s.len() == 0 ==> decodable(s),
        s.len() >= 2 && !(1 <= (s[0] * 256 + s[1]) <= 5) ==> decodable(s),
{
}

/// The texts that describe the codec's own errors.
pub proof fn lemma_error_texts()
    ensures
        end_of_buf_text() == "end of buf"@,
        wrong_type_num_text() == "write num"@,
{
    reveal_strlit("end of buf");
    reveal_strlit("write num");
    assert(end_of_buf_text() =~= "end of buf"@);
    assert(wrong_type_num_text() =~= "write num"@);
}

} // verus!
