//! Length-prefixed framing: a 4-byte big-endian length, then that many bytes
//! of payload.

use bytes::BytesMut;
use vstd::prelude::*;

verus! {

#[verifier::external_type_specification]
#[verifier::external_body]
pub struct ExBytesMut(BytesMut);

/// The bytes that a `BytesMut` holds, front first.
pub uninterp spec fn buf_bytes(b: BytesMut) -> Seq<u8>;

/// Relies on `BytesMut::len`: the number of bytes held.
#[verifier::external_body]
fn buf_len(b: &BytesMut) -> (r: usize)
    ensures
        r == buf_bytes(*b).len(),
{
    b.len()
}

/// Relies on indexing through `BytesMut`'s `Deref` to `[u8]`.
#[verifier::external_body]
fn buf_byte(b: &BytesMut, i: usize) -> (r: u8)
    requires
        i < buf_bytes(*b).len(),
    ensures
        r == buf_bytes(*b)[i as int],
{
    b[i]
}

/// Relies on `BytesMut::split_to`: the first `at` bytes leave the buffer and
/// are returned; they are copied into a `Vec`.
#[verifier::external_body]
fn buf_take_front(b: &mut BytesMut, at: usize) -> (r: Vec<u8>)
    requires
        at <= buf_bytes(*old(b)).len(),
    ensures
        r@ == buf_bytes(*old(b)).subrange(0, at as int),
        buf_bytes(*final(b)) == buf_bytes(*old(b)).subrange(at as int, buf_bytes(*old(b)).len() as int),
{
    b.split_to(at).to_vec()
}

/// Relies on `bytes::BufMut::put_u32`: appends `n` in big-endian order.
#[verifier::external_body]
fn buf_put_u32(b: &mut BytesMut, n: u32)
    ensures
        buf_bytes(*final(b)) == buf_bytes(*old(b)) + be_bytes(n),
{
    bytes::BufMut::put_u32(b, n)
}

/// Relies on `BytesMut::extend_from_slice`: appends the slice.
#[verifier::external_body]
fn buf_extend(b: &mut BytesMut, s: &[u8])
    ensures
        buf_bytes(*final(b)) == buf_bytes(*old(b)) + s@,
{
    b.extend_from_slice(s)
}

/// The big-endian bytes of `n`.
pub open spec fn be_bytes(n: u32) -> Seq<u8> {
    seq![(n >> 24u32) as u8, (n >> 16u32) as u8, (n >> 8u32) as u8, n as u8]
}

/// The number that four big-endian bytes stand for.
pub open spec fn be_value(b0: u8, b1: u8, b2: u8, b3: u8) -> u32 {
    ((b0 as u32) << 24u32) | ((b1 as u32) << 16u32) | ((b2 as u32) << 8u32) | (b3 as u32)
}

/// The length that the first four bytes of `buf` declare.
pub open spec fn declared_len(buf: Seq<u8>) -> nat
    recommends
        buf.len() >= 4,
{
    be_value(buf[0], buf[1], buf[2], buf[3]) as nat
}

/// The frame that carries `payload`.
pub open spec fn frame(payload: Seq<u8>) -> Seq<u8> {
    be_bytes(payload.len() as u32) + payload
}

/// What decoding `buf` gives: `None` while no whole frame is at its front,
/// else the payload of the first frame and the bytes after it.
pub open spec fn decode_frame(buf: Seq<u8>) -> Option<(Seq<u8>, Seq<u8>)> {
    if buf.len() < 4 || buf.len() < 4 + declared_len(buf) {
        None
    } else {
        let end = 4 + declared_len(buf);
        Some((buf.subrange(4, end as int), buf.subrange(end as int, buf.len() as int)))
    }
}

/// Why a payload could not be framed.
#[derive(Debug, Clone, Copy, PartialEq, Eq)]
pub enum FrameError {
    /// The payload's length does not fit in the 4-byte prefix.
    TooLong,
}

/// The framing codec. It keeps no state: a partial frame stays in the caller's
/// buffer until the rest arrives.
#[derive(Debug, Clone, Copy, Default)]
pub struct LengthCodec;

impl LengthCodec {
    /// Takes the first whole frame off the front of `src` and returns its
    /// payload; leaves `src` as it was while no whole frame is there.
    pub fn decode(&mut self, src: &mut BytesMut) -> (r: Option<Vec<u8>>)
        ensures
            match decode_frame(buf_bytes(*old(src))) {
                None => r is None && buf_bytes(*final(src)) == buf_bytes(*old(src)),
                Some((payload, rest)) => r is Some && r->0@ == payload && buf_bytes(*final(src))
                    == rest,
            },
    {
        let n = buf_len(src);
        if n < 4 {
            return None;
        }
        let b0 = buf_byte(src, 0);
        let b1 = buf_byte(src, 1);
        let b2 = buf_byte(src, 2);
        let b3 = buf_byte(src, 3);
        let len32: u32 = ((b0 as u32) << 24u32) | ((b1 as u32) << 16u32) | ((b2 as u32) << 8u32)
            | (b3 as u32);
        let len = len32 as usize;
        if n - 4 < len {
            return None;
        }
        let _header = buf_take_front(src, 4);
        let payload = buf_take_front(src, len);
        proof {
            let s = buf_bytes(*old(src));
            assert(payload@ =~= s.subrange(4, 4 + len));
            assert(buf_bytes(*src) =~= s.subrange(4 + len, s.len() as int));
        }
        Some(payload)
    }

    /// Appends the frame that carries `payload` to `dst`.
    pub fn encode(&mut self, payload: &Vec<u8>, dst: &mut BytesMut) -> (r: Result<(), FrameError>)
        ensures
            r is Ok <==> payload@.len() <= u32::MAX,
            r is Ok ==> buf_bytes(*final(dst)) == buf_bytes(*old(dst)) + frame(payload@),
            r is Err ==> buf_bytes(*final(dst)) == buf_bytes(*old(dst)),
    {
        if payload.len() > u32::MAX as usize {
            return Err(FrameError::TooLong);
        }
        buf_put_u32(dst, payload.len() as u32);
        buf_extend(dst, payload.as_slice());
        assert(buf_bytes(*dst) =~= buf_bytes(*old(dst)) + frame(payload@));
        Ok(())
    }
}

/// The prefix written for a length reads back as that length.
pub proof fn lemma_be_round_trip(n: u32)
    ensures
        be_value((n >> 24u32) as u8, (n >> 16u32) as u8, (n >> 8u32) as u8, n as u8) == n,
{
    assert(((((n >> 24u32) as u8) as u32) << 24u32) | ((((n >> 16u32) as u8) as u32) << 16u32)
        | ((((n >> 8u32) as u8) as u32) << 8u32) | (((n as u8) as u32)) == n) by (bit_vector);
}

/// Decoding what was encoded gives the payload back, and leaves whatever
/// followed the frame in the buffer.
pub proof fn lemma_frame_round_trip(payload: Seq<u8>, rest: Seq<u8>)
    requires
        payload.len() <= u32::MAX,
    ensures
        decode_frame(frame(payload) + rest) == Some((payload, rest)),
{
    let n = payload.len() as u32;
    lemma_be_round_trip(n);
    let buf = frame(payload) + rest;
    assert(declared_len(buf) == payload.len());
    assert(buf.subrange(4, 4 + payload.len() as int) =~= payload);
    assert(buf.subrange(4 + payload.len() as int, buf.len() as int) =~= rest);
}

/// A frame that arrives in pieces decodes exactly once: every proper prefix of
/// it decodes to nothing (and so stays in the buffer while more bytes are
/// appended), and the whole frame decodes to its payload with nothing left.
pub proof fn lemma_fragmented_frame(payload: Seq<u8>, k: nat)
    requires
        payload.len() <= u32::MAX,
        k < frame(payload).len(),
    ensures
        decode_frame(frame(payload).subrange(0, k as int)) is None,
        decode_frame(frame(payload)) == Some((payload, Seq::<u8>::empty())),
{
    let n = payload.len() as u32;
    lemma_be_round_trip(n);
    let f = frame(payload);
    let pre = f.subrange(0, k as int);
    if k >= 4 {
        assert(pre[0] == f[0] && pre[1] == f[1] && pre[2] == f[2] && pre[3] == f[3]);
        assert(declared_len(pre) == payload.len());
    }
    lemma_frame_round_trip(payload, Seq::<u8>::empty());
    assert(f + Seq::<u8>::empty() =~= f);
}

} // verus!
