//! Frames on the wire: a length of four bytes, most significant first,
//! followed by that many bytes of payload.

use vstd::prelude::*;

verus! {

/// The longest payload that a frame may carry.
pub const MAX_FRAME_LEN: usize = 8388608;

/// The number of bytes that give a frame's length.
pub const HEAD_LEN: usize = 4;

/// Why bytes are no frame.
#[derive(Clone, Copy, Debug, PartialEq, Eq, Structural)]
pub enum FrameError {
    /// The payload is longer than `MAX_FRAME_LEN`.
    TooBig,
    /// The stream ended in the middle of a frame.
    Truncated,
}

/// A length as four bytes, most significant first.
pub open spec fn head_of(len: int) -> Seq<u8> {
    seq![
        (len / 16777216 % 256) as u8,
        (len / 65536 % 256) as u8,
        (len / 256 % 256) as u8,
        (len % 256) as u8,
    ]
}

/// The length that the first four bytes give.
pub open spec fn len_in(head: Seq<u8>) -> int {
    head[0] as int * 16777216 + head[1] as int * 65536 + head[2] as int * 256 + head[3] as int
}

/// The frame that carries `payload`.
pub open spec fn framed(payload: Seq<u8>) -> Seq<u8> {
    head_of(payload.len() as int) + payload
}

/// What stands at the front of received bytes.
pub enum Front {
    /// A whole frame: its payload, and the bytes behind it.
    Frame { payload: Seq<u8>, rest: Seq<u8> },
    /// The beginning of a frame, or nothing.
    Partial,
    /// A frame longer than allowed.
    Oversized,
}

/// What stands at the front of `bytes`.
pub open spec fn front_of(bytes: Seq<u8>) -> Front {
    if bytes.len() < HEAD_LEN {
        Front::Partial
    } else if len_in(bytes) > MAX_FRAME_LEN {
        Front::Oversized
    } else if bytes.len() < HEAD_LEN + len_in(bytes) {
        Front::Partial
    } else {
        Front::Frame {
            payload: bytes.subrange(HEAD_LEN as int, HEAD_LEN + len_in(bytes)),
            rest: bytes.skip(HEAD_LEN + len_in(bytes)),
        }
    }
}

/// Wraps a payload into a frame.  A payload longer than `MAX_FRAME_LEN` is
/// refused.
pub fn encode_frame(payload: &[u8]) -> (frame: Result<Vec<u8>, FrameError>)
    ensures
        match frame {
            Ok(bytes) => payload@.len() <= MAX_FRAME_LEN && bytes@ == framed(payload@),
            Err(error) => payload@.len() > MAX_FRAME_LEN && error == FrameError::TooBig,
        },
{
    let len = payload.len();
    if len > MAX_FRAME_LEN {
        return Err(FrameError::TooBig);
    }
    let mut bytes: Vec<u8> = Vec::new();
    bytes.push((len / 16777216 % 256) as u8);
    bytes.push((len / 65536 % 256) as u8);
    bytes.push((len / 256 % 256) as u8);
    bytes.push((len % 256) as u8);
    bytes.extend_from_slice(payload);
    proof {
        assert(bytes@ =~= framed(payload@));
    }
    Ok(bytes)
}

/// Takes the first frame from the front of `buffer`, if a whole frame
/// stands there, and leaves the rest.  Says whether one was taken.
pub fn decode_frame(buffer: &mut Vec<u8>) -> (frame: Result<Option<Vec<u8>>, FrameError>)
    ensures
        match front_of(old(buffer)@) {
            Front::Frame { payload, rest } => {
                &&& frame matches Ok(Some(p)) && p@ == payload
                &&& final(buffer)@ == rest
            },
            Front::Partial => {
                &&& frame == Ok::<Option<Vec<u8>>, FrameError>(None)
                &&& final(buffer)@ == old(buffer)@
            },
            Front::Oversized => {
                &&& frame == Err::<Option<Vec<u8>>, FrameError>(FrameError::TooBig)
                &&& final(buffer)@ == old(buffer)@
            },
        },
{
    if buffer.len() < HEAD_LEN {
        return Ok(None);
    }
    let len: usize = buffer[0] as usize * 16777216 + buffer[1] as usize * 65536 + buffer[2] as usize
        * 256 + buffer[3] as usize;
    if len > MAX_FRAME_LEN {
        return Err(FrameError::TooBig);
    }
    if buffer.len() < HEAD_LEN + len {
        return Ok(None);
    }
    let mut taken = buffer.split_off(HEAD_LEN);
    let rest = taken.split_off(len);
    *buffer = rest;
    proof {
        assert(taken@ =~= old(buffer)@.subrange(HEAD_LEN as int, HEAD_LEN + len));
        assert(final(buffer)@ =~= old(buffer)@.skip(HEAD_LEN + len));
    }
    Ok(Some(taken))
}

/// Whether the stream may end with `buffer` left over: it may if nothing
/// is left, and a part of a frame is an error.
pub fn check_end(buffer: &Vec<u8>) -> (end: Result<(), FrameError>)
    ensures
        match end {
            Ok(_) => buffer@.len() == 0,
            Err(error) => buffer@.len() > 0 && error == FrameError::Truncated,
        },
{
    if buffer.len() == 0 {
        Ok(())
    } else {
        Err(FrameError::Truncated)
    }
}

/// A length of at most `MAX_FRAME_LEN` is read back from its four bytes.
pub proof fn lemma_head_round_trip(len: int)
    requires
        0 <= len <= MAX_FRAME_LEN,
    ensures
        head_of(len).len() == HEAD_LEN,
        len_in(head_of(len)) == len,
{
    let b0 = len / 16777216 % 256;
    let b1 = len / 65536 % 256;
    let b2 = len / 256 % 256;
    let b3 = len % 256;
    assert(len == b0 * 16777216 + b1 * 65536 + b2 * 256 + b3);
}

/// A frame, with whatever follows it, is taken apart into the payload it
/// was made of and what follows.
pub proof fn lemma_frame_round_trip(payload: Seq<u8>, rest: Seq<u8>)
    requires
        payload.len() <= MAX_FRAME_LEN,
    ensures
        front_of(framed(payload) + rest) == (Front::Frame { payload, rest }),
{
    let bytes = framed(payload) + rest;
    lemma_head_round_trip(payload.len() as int);
    assert(bytes[0] == head_of(payload.len() as int)[0]);
    assert(bytes[1] == head_of(payload.len() as int)[1]);
    assert(bytes[2] == head_of(payload.len() as int)[2]);
    assert(bytes[3] == head_of(payload.len() as int)[3]);
    assert(len_in(bytes) == payload.len());
    assert(bytes.subrange(HEAD_LEN as int, HEAD_LEN + payload.len()) =~= payload);
    assert(bytes.skip(HEAD_LEN + payload.len()) =~= rest);
}

/// No proper beginning of a frame is taken for a frame: until its last
/// byte has come, the reader waits.
pub proof fn lemma_partial_frame_waits(payload: Seq<u8>, n: int)
    requires
        payload.len() <= MAX_FRAME_LEN,
        0 <= n < framed(payload).len(),
    ensures
        front_of(framed(payload).take(n)) == Front::Partial,
{
    let bytes = framed(payload).take(n);
    lemma_head_round_trip(payload.len() as int);
    if n >= HEAD_LEN {
        assert(bytes[0] == head_of(payload.len() as int)[0]);
        assert(bytes[1] == head_of(payload.len() as int)[1]);
        assert(bytes[2] == head_of(payload.len() as int)[2]);
        assert(bytes[3] == head_of(payload.len() as int)[3]);
        assert(len_in(bytes) == payload.len());
    }
}

} // verus!
