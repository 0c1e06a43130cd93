//! Framing of the control and data channels.
//!
//! The control channel carries CRLF-terminated lines; the data channel
//! carries raw bytes delimited by the connection's end.
use vstd::prelude::*;

use crate::command::{parse_line, Command, CommandSpec, ParseError};
use crate::reply::{reply_line, Response};
use crate::text::copy_range;

verus! {

#[verifier::external_type_specification]
#[verifier::external_body]
pub struct ExBytesMut(bytes::BytesMut);

/// The bytes that a buffer holds.
pub uninterp spec fn buffered(b: bytes::BytesMut) -> Seq<u8>;

/// Relies on `BytesMut`'s `Deref` to `[u8]`: the slice is the buffered
/// bytes.
#[verifier::external_body]
fn buffer_bytes(b: &bytes::BytesMut) -> (r: &[u8])
    ensures
        r@ == buffered(*b),
{
    &b[..]
}

/// Relies on `bytes::Buf::advance` for `BytesMut`: it drops the first `n`
/// bytes, and panics if there are fewer.
#[verifier::external_body]
fn buffer_advance(b: &mut bytes::BytesMut, n: usize)
    requires
        n <= buffered(*old(b)).len(),
    ensures
        buffered(*final(b)) == buffered(*old(b)).skip(n as int),
{
    bytes::Buf::advance(b, n)
}

/// Relies on `BytesMut::extend_from_slice`: it appends `data`.
#[verifier::external_body]
fn buffer_extend(b: &mut bytes::BytesMut, data: &[u8])
    ensures
        buffered(*final(b)) == buffered(*old(b)) + data@,
{
    b.extend_from_slice(data)
}

/// Index of the first CRLF in `s` at or after `from`.
pub open spec fn crlf_from(s: Seq<u8>, from: int) -> Option<int>
    decreases s.len() - from,
{
    if from < 0 || from + 1 >= s.len() {
        None
    } else if s[from] == 13 && s[from + 1] == 10 {
        Some(from)
    } else {
        crlf_from(s, from + 1)
    }
}

proof fn lemma_crlf_bounds(s: Seq<u8>, from: int)
    requires
        0 <= from,
    ensures
        crlf_from(s, from) matches Some(i) ==> from <= i && i + 1 < s.len(),
    decreases s.len() - from,
{
    if from + 1 < s.len() && !(s[from] == 13 && s[from + 1] == 10) {
        lemma_crlf_bounds(s, from + 1);
    }
}

/// Index of the first CRLF in `s`.
pub open spec fn first_crlf(s: Seq<u8>) -> Option<int> {
    crlf_from(s, 0)
}

/// Finds the first CRLF in `buf`.
pub fn find_crlf(buf: &[u8]) -> (r: Option<usize>)
    ensures
        match r {
            Some(i) => first_crlf(buf@) == Some(i as int),
            None => first_crlf(buf@).is_none(),
        },
{
    let mut i: usize = 0;
    while i < buf.len()
        invariant
            i <= buf.len(),
            crlf_from(buf@, i as int) == first_crlf(buf@),
        decreases buf.len() - i,
    {
        if i + 1 >= buf.len() {
            return None;
        }
        if buf[i] == 13 && buf[i + 1] == 10 {
            return Some(i);
        }
        i = i + 1;
    }
    None
}

/// The control channel's codec: lines in, replies out.
pub struct FtpCodec;

/// The data channel's codec: raw bytes both ways.
pub struct BytesCodec;

impl FtpCodec {
    /// Takes the first whole line off `buf` and reads it as a command, or
    /// gives the reason it does not parse; `None`, with `buf` untouched,
    /// while no whole line is there.
    pub fn decode(&mut self, buf: &mut bytes::BytesMut) -> (r: Option<Result<Command, ParseError>>)
        ensures
            r.is_none() == first_crlf(buffered(*old(buf))).is_none(),
            r.is_none() ==> buffered(*final(buf)) == buffered(*old(buf)),
            r matches Some(c) ==> ({
                let i = first_crlf(buffered(*old(buf))).unwrap();
                let line = buffered(*old(buf)).take(i);
                &&& buffered(*final(buf)) == buffered(*old(buf)).skip(i + 2)
                &&& match c {
                    Ok(cmd) => parse_line(line) == Ok::<CommandSpec, ParseError>(cmd@),
                    Err(e) => parse_line(line) == Err::<CommandSpec, ParseError>(e),
                }
            }),
    {
        let bytes = buffer_bytes(buf);
        match find_crlf(bytes) {
            None => None,
            Some(i) => {
                proof {
                    lemma_crlf_bounds(bytes@, 0);
                }
                assert(i + 1 < bytes.len());
                let line = copy_range(bytes, 0, i);
                assert(line@ =~= bytes@.take(i as int));
                buffer_advance(buf, i + 2);
                Some(Command::new(line))
            },
        }
    }

    /// Appends the wire line of `answer` to `buf`.
    pub fn encode(&mut self, answer: &Response, buf: &mut bytes::BytesMut)
        ensures
            buffered(*final(buf)) == buffered(*old(buf)) + reply_line(
                answer.code.number(),
                answer.message@,
            ),
    {
        let line = answer.encode();
        buffer_extend(buf, line.as_slice());
    }
}

impl BytesCodec {
    /// Takes everything `buf` holds; `None` when it is empty.
    pub fn decode(&mut self, buf: &mut bytes::BytesMut) -> (r: Option<Vec<u8>>)
        ensures
            r.is_none() == (buffered(*old(buf)).len() == 0),
            r matches Some(v) ==> v@ == buffered(*old(buf)),
            buffered(*final(buf)).len() == 0,
    {
        let bytes = buffer_bytes(buf);
        let n = bytes.len();
        if n == 0 {
            return None;
        }
        let v = copy_range(bytes, 0, n);
        assert(v@ =~= bytes@);
        buffer_advance(buf, n);
        Some(v)
    }

    /// Appends `data` to `buf`.
    pub fn encode(&mut self, data: Vec<u8>, buf: &mut bytes::BytesMut)
        ensures
            buffered(*final(buf)) == buffered(*old(buf)) + data@,
    {
        buffer_extend(buf, data.as_slice());
    }
}

} // verus!
